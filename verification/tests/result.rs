use quest_discovery::directive::{render, ClassifiedDirective};
use quest_discovery::result::{parse_define, DiscoveryResult};

fn s(text: &str) -> String {
    text.to_string()
}

#[test]
fn new_result_is_empty_and_not_found() {
    let r = DiscoveryResult::new();
    assert!(!r.found());
    assert!(r.emit().is_empty());
    assert!(r.includes().is_empty());
    assert!(r.search_paths().is_empty());
}

#[test]
fn include_added_twice_is_emitted_once() {
    let mut r = DiscoveryResult::new();
    r.add_include(s("/inc"));
    r.add_include(s("/inc"));
    assert_eq!(r.includes(), &vec![s("/inc")]);
    assert_eq!(r.emit(), vec![ClassifiedDirective::IncludePath(s("/inc"))]);
}

#[test]
fn search_path_added_twice_is_kept_once() {
    let mut r = DiscoveryResult::new();
    r.add_search_path(s("/lib"));
    r.add_search_path(s("/usr/lib"));
    r.add_search_path(s("/lib"));
    assert_eq!(r.search_paths(), &vec![s("/lib"), s("/usr/lib")]);
}

#[test]
fn later_definition_replaces_the_value_in_place() {
    let mut r = DiscoveryResult::new();
    r.add_define(s("A"), s("1"));
    r.add_define(s("B"), s("2"));
    r.add_define(s("A"), s("3"));
    assert_eq!(r.defines(), vec![(s("A"), s("3")), (s("B"), s("2"))]);
    assert_eq!(r.define("A"), Some(&s("3")));
    assert_eq!(r.define("C"), None);
}

#[test]
fn first_static_flag_of_a_library_stays() {
    let mut r = DiscoveryResult::new();
    r.add_library(s("QuEST"), true);
    r.add_library(s("QuEST"), false);
    r.add_library(s("m"), false);
    assert_eq!(r.libraries(), vec![(s("QuEST"), true), (s("m"), false)]);
    assert_eq!(r.library("QuEST"), Some(true));
    assert_eq!(r.library("quest"), None);
}

#[test]
fn define_is_split_on_the_first_equals_sign() {
    assert_eq!(parse_define("COMPILE_CUDA=0"), (s("COMPILE_CUDA"), s("0")));
    assert_eq!(parse_define("A=b=c"), (s("A"), s("b=c")));
    assert_eq!(parse_define("NAME="), (s("NAME"), s("")));
    assert_eq!(parse_define("=v"), (s(""), s("v")));
}

#[test]
fn define_without_value_defaults_to_one() {
    assert_eq!(parse_define("QUEST"), (s("QUEST"), s("1")));
}

#[test]
fn empty_raw_define_adds_nothing() {
    let mut r = DiscoveryResult::new();
    r.add_raw_define("");
    r.add_raw_define("X=7");
    r.add_raw_define("Y");
    assert_eq!(r.defines(), vec![(s("X"), s("7")), (s("Y"), s("1"))]);
}

#[test]
fn directives_are_emitted_set_by_set() {
    let mut r = DiscoveryResult::new();
    r.add_library(s("QuEST"), false);
    r.add_search_path(s("/opt/lib"));
    r.add_define(s("FLOAT_PRECISION"), s("2"));
    r.add_include(s("/inc"));
    r.note_presence(true);
    assert!(r.found());
    assert_eq!(
        r.emit(),
        vec![
            ClassifiedDirective::IncludePath(s("/inc")),
            ClassifiedDirective::Define(s("FLOAT_PRECISION"), s("2")),
            ClassifiedDirective::LinkSearchPath(s("/opt/lib")),
            ClassifiedDirective::LinkLibrary(s("QuEST"), false),
        ]
    );
}

#[test]
fn absorbing_directives_fills_the_sets() {
    let mut r = DiscoveryResult::new();
    let list = vec![
        ClassifiedDirective::LinkSearchPath(s("/opt/lib")),
        ClassifiedDirective::LinkLibrary(s("QuEST"), false),
        ClassifiedDirective::LinkLibrary(s("QuEST"), true),
        ClassifiedDirective::IncludePath(s("/inc")),
        ClassifiedDirective::Define(s("A"), s("1")),
    ];
    r.absorb_all(&list);
    assert_eq!(r.search_paths(), &vec![s("/opt/lib")]);
    assert_eq!(r.libraries(), vec![(s("QuEST"), false)]);
    assert_eq!(r.includes(), &vec![s("/inc")]);
    assert_eq!(r.define("A"), Some(&s("1")));
    assert!(!r.found());
}

#[test]
fn presence_once_noted_stays() {
    let mut r = DiscoveryResult::new();
    r.note_presence(false);
    assert!(!r.found());
    r.note_presence(true);
    r.note_presence(false);
    assert!(r.found());
}

#[test]
fn directives_render_as_build_lines() {
    assert_eq!(render(&ClassifiedDirective::IncludePath(s("/inc"))), "cargo:include=/inc");
    assert_eq!(
        render(&ClassifiedDirective::Define(s("FLOAT_PRECISION"), s("2"))),
        "cargo:rustc-cfg=quest_def=\"FLOAT_PRECISION=2\""
    );
    assert_eq!(
        render(&ClassifiedDirective::LinkSearchPath(s("/opt/lib"))),
        "cargo:rustc-link-search=native=/opt/lib"
    );
    assert_eq!(render(&ClassifiedDirective::LinkLibrary(s("QuEST"), false)), "cargo:rustc-link-lib=QuEST");
    assert_eq!(
        render(&ClassifiedDirective::LinkLibrary(s("QuEST"), true)),
        "cargo:rustc-link-lib=static=QuEST"
    );
}
