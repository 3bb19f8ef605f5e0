use quest_discovery::compile::{definitions_for_compile, is_required_name};
use quest_discovery::fallback::{from_probe, resolve, ProbeReport};
use quest_discovery::classify::library_name;
use quest_discovery::request::{bootstrap_target, choose_override, watched_variables, DiscoveryRequest};
use quest_discovery::result::DiscoveryResult;

fn s(text: &str) -> String {
    text.to_string()
}

fn pair(name: &str, value: &str) -> (String, String) {
    (s(name), s(value))
}

fn plain(platform: &str) -> DiscoveryRequest {
    DiscoveryRequest {
        multithread: false,
        distributed: false,
        cuda: false,
        cuquantum: false,
        hip: false,
        directory_override: None,
        platform: s(platform),
        c_compiler_given: false,
        cxx_compiler_given: false,
        target: s("quest_dummy"),
    }
}

#[test]
fn plain_request_asks_nothing_of_the_tool() {
    assert_eq!(plain("linux").tool_definitions(), vec![]);
    assert!(!plain("linux").is_windows());
    assert!(plain("windows").is_windows());
    assert!(!plain("Windows").is_windows());
    assert!(plain("macos").is_macos());
}

#[test]
fn macos_defaults_to_clang_unless_a_compiler_is_given() {
    assert_eq!(
        plain("macos").tool_definitions(),
        vec![pair("CMAKE_C_COMPILER", "clang"), pair("CMAKE_CXX_COMPILER", "clang++")]
    );
    let mut r = plain("macos");
    r.c_compiler_given = true;
    assert_eq!(r.tool_definitions(), vec![pair("CMAKE_CXX_COMPILER", "clang++")]);
    r.cxx_compiler_given = true;
    assert_eq!(r.tool_definitions(), vec![]);
}

#[test]
fn features_switch_on_their_settings_in_order() {
    let mut r = plain("linux");
    r.multithread = true;
    r.distributed = true;
    r.cuda = true;
    r.cuquantum = true;
    r.hip = true;
    r.directory_override = Some(s("/opt/quest"));
    assert_eq!(
        r.tool_definitions(),
        vec![
            pair("ENABLE_MULTITHREADING", "ON"),
            pair("ENABLE_DISTRIBUTION", "ON"),
            pair("ENABLE_CUDA", "ON"),
            pair("ENABLE_CUQUANTUM", "ON"),
            pair("ENABLE_HIP", "ON"),
            pair("CMAKE_PREFIX_PATH", "/opt/quest"),
        ]
    );
}

#[test]
fn cuquantum_needs_cuda() {
    let mut r = plain("linux");
    r.cuquantum = true;
    assert_eq!(r.tool_definitions(), vec![]);
    assert_eq!(r.features(), Vec::<String>::new());
    r.cuda = true;
    r.hip = true;
    assert_eq!(r.features(), vec![s("cuda"), s("cuquantum"), s("hip")]);
    r.multithread = true;
    r.distributed = true;
    assert_eq!(r.features(), vec![s("openmp"), s("mpi"), s("cuda"), s("cuquantum"), s("hip")]);
}

#[test]
fn first_override_that_is_set_is_taken() {
    assert_eq!(choose_override(Some(s("/a")), Some(s("/b"))), Some(s("/a")));
    assert_eq!(choose_override(None, Some(s("/b"))), Some(s("/b")));
    assert_eq!(choose_override(Some(s("/a")), None), Some(s("/a")));
    assert_eq!(choose_override(None, None), None);
}

#[test]
fn required_definitions_fall_back_to_their_defaults() {
    let r = DiscoveryResult::new();
    assert_eq!(
        definitions_for_compile(&r),
        vec![
            pair("COMPILE_MPI", "0"),
            pair("COMPILE_OPENMP", "0"),
            pair("COMPILE_CUDA", "0"),
            pair("COMPILE_CUQUANTUM", "0"),
            pair("FLOAT_PRECISION", "2"),
        ]
    );
}

#[test]
fn found_definitions_take_the_place_of_defaults_and_others_follow() {
    let mut r = DiscoveryResult::new();
    r.add_raw_define("EXTRA=yes");
    r.add_raw_define("FLOAT_PRECISION=4");
    r.add_raw_define("COMPILE_OPENMP=1");
    r.add_raw_define("FLAG");
    assert_eq!(
        definitions_for_compile(&r),
        vec![
            pair("COMPILE_MPI", "0"),
            pair("COMPILE_OPENMP", "1"),
            pair("COMPILE_CUDA", "0"),
            pair("COMPILE_CUQUANTUM", "0"),
            pair("FLOAT_PRECISION", "4"),
            pair("EXTRA", "yes"),
            pair("FLAG", "1"),
        ]
    );
    assert!(is_required_name(&s("COMPILE_CUDA")));
    assert!(!is_required_name(&s("compile_cuda")));
}

#[test]
fn structured_result_that_found_the_library_wins_whole() {
    let mut structured = DiscoveryResult::new();
    structured.add_include(s("/inc"));
    structured.note_presence(true);
    let report = ProbeReport {
        include_paths: vec![s("/probe")],
        libraries: vec![],
        search_paths: vec![],
        definitions: vec![],
    };
    let won = resolve(structured.clone(), Some(&report)).unwrap();
    assert_eq!(won, structured);
}

#[test]
fn probe_result_wins_whole_where_the_structured_one_found_nothing() {
    let mut structured = DiscoveryResult::new();
    structured.add_include(s("/inc"));
    let report = ProbeReport {
        include_paths: vec![s("/probe"), s("/probe")],
        libraries: vec![s("QuEST")],
        search_paths: vec![s("/lib")],
        definitions: vec![s("A=1")],
    };
    let won = resolve(structured.clone(), Some(&report)).unwrap();
    assert_eq!(won, from_probe(&report));
    assert!(won.found());
    assert_eq!(won.includes(), &vec![s("/probe")]);
    assert_eq!(won.libraries(), vec![(s("QuEST"), false)]);
    assert_eq!(resolve(structured, None), None);
}

#[test]
fn fixed_names_of_the_discovery() {
    assert_eq!(bootstrap_target(), "quest_dummy");
    assert_eq!(library_name(), "QuEST");
    assert_eq!(watched_variables(), vec![s("QUEST_DIR"), s("QUEST_ROOT"), s("CMAKE_PREFIX_PATH")]);
}
