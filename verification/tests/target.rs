use quest_discovery::directive::ClassifiedDirective;
use quest_discovery::json::parse;
use quest_discovery::classify::CasingPolicy;
use quest_discovery::target::{
    decode_target, extract, extract_with, mentions_library, shows_target_library, CommandFragment,
    CompileGroup, LinkSection, TargetDescriptor,
};

fn s(text: &str) -> String {
    text.to_string()
}

fn lib(name: &str, is_static: bool) -> ClassifiedDirective {
    ClassifiedDirective::LinkLibrary(s(name), is_static)
}

fn bare(name: &str) -> TargetDescriptor {
    TargetDescriptor { name: s(name), compile_groups: vec![], link: LinkSection::Absent, artifacts: vec![] }
}

#[test]
fn legacy_target_gives_includes_defines_and_libraries() {
    let text = "{\"name\": \"quest_dummy\", \
        \"compileGroups\": [{\"defines\": [{\"define\": \"FLOAT_PRECISION=2\"}], \
                             \"includes\": [{\"path\": \"/inc\"}]}], \
        \"link\": {\"libraries\": [{\"name\": \"-lQuEST\"}]}}";
    let doc = parse(text).unwrap();
    let target = decode_target(&doc).unwrap();
    assert_eq!(
        target,
        TargetDescriptor {
            name: s("quest_dummy"),
            compile_groups: vec![CompileGroup { defines: vec![s("FLOAT_PRECISION=2")], includes: vec![s("/inc")] }],
            link: LinkSection::Legacy { libraries: vec![s("-lQuEST")], search_directories: vec![] },
            artifacts: vec![],
        }
    );
    let result = extract(&target, false);
    assert!(result.found());
    assert_eq!(
        result.emit(),
        vec![
            ClassifiedDirective::IncludePath(s("/inc")),
            ClassifiedDirective::Define(s("FLOAT_PRECISION"), s("2")),
            lib("QuEST", false),
            lib("quest", false),
            lib("QUEST", false),
        ]
    );
}

#[test]
fn fragments_are_read_by_role() {
    let text = "{\"name\": \"t\", \"link\": {\"commandFragments\": [\
        {\"role\": \"flags\", \"fragment\": \"-O2\"},\
        {\"role\": \"libraries\", \"fragment\": \"-Wl,-rpath,/opt/quest/lib\"},\
        {\"role\": \"libraries\", \"fragment\": \"/opt/quest/lib/libQuEST.so\"},\
        {\"role\": \"libraries\", \"fragment\": \"-lm\"},\
        {\"role\": \"libraries\", \"fragment\": \"\"},\
        {\"role\": \"libraries\"},\
        {\"fragment\": \"-lz\"}\
        ], \"sysroot\": {\"libraryDirectories\": [{\"path\": \"/ignored\"}]}}}";
    let target = decode_target(&parse(text).unwrap()).unwrap();
    assert_eq!(
        target.link,
        LinkSection::Fragments(vec![
            CommandFragment { role: s("flags"), text: s("-O2") },
            CommandFragment { role: s("libraries"), text: s("-Wl,-rpath,/opt/quest/lib") },
            CommandFragment { role: s("libraries"), text: s("/opt/quest/lib/libQuEST.so") },
            CommandFragment { role: s("libraries"), text: s("-lm") },
            CommandFragment { role: s("libraries"), text: s("") },
        ])
    );
    let result = extract(&target, false);
    assert!(result.found());
    assert_eq!(result.search_paths(), &vec![s("/opt/quest/lib")]);
    assert_eq!(
        result.libraries(),
        vec![(s("QuEST"), false), (s("quest"), false), (s("QUEST"), false), (s("m"), false)]
    );
}

#[test]
fn legacy_link_reads_system_library_directories() {
    let text = "{\"name\": \"t\", \"link\": {\"libraries\": [{\"name\": \"/usr/lib/libm.a\"}, {\"id\": 3}], \
        \"sysroot\": {\"libraryDirectories\": [{\"path\": \"/sys/lib\"}, {\"path\": \"/usr/lib\"}]}}}";
    let target = decode_target(&parse(text).unwrap()).unwrap();
    assert_eq!(
        target.link,
        LinkSection::Legacy {
            libraries: vec![s("/usr/lib/libm.a")],
            search_directories: vec![s("/sys/lib"), s("/usr/lib")],
        }
    );
    let result = extract(&target, false);
    assert!(!result.found());
    assert_eq!(result.search_paths(), &vec![s("/usr/lib"), s("/sys/lib")]);
    assert_eq!(result.libraries(), vec![(s("m"), true)]);
}

#[test]
fn document_without_name_describes_no_target() {
    assert_eq!(decode_target(&parse("{\"compileGroups\": []}").unwrap()), None);
    assert_eq!(decode_target(&parse("{\"name\": 3}").unwrap()), None);
    assert_eq!(decode_target(&parse("[]").unwrap()), None);
}

#[test]
fn link_that_is_no_object_is_absent() {
    let target = decode_target(&parse("{\"name\": \"t\", \"link\": \"x\"}").unwrap()).unwrap();
    assert_eq!(target, bare("t"));
    assert_eq!(extract(&target, false).emit(), vec![]);
}

#[test]
fn library_is_seen_in_any_case_of_letters() {
    assert!(mentions_library("/opt/QuEST/include"));
    assert!(mentions_library("libquest.so"));
    assert!(mentions_library("MY_QUEST_FLAG=1"));
    assert!(!mentions_library("/opt/que/st"));
    assert!(!mentions_library("ques"));
    assert!(!mentions_library(""));
}

#[test]
fn each_kind_of_text_can_show_the_library() {
    let mut by_define = bare("t");
    by_define.compile_groups = vec![CompileGroup { defines: vec![s("USE_QUEST")], includes: vec![] }];
    assert!(shows_target_library(&by_define));

    let mut by_include = bare("t");
    by_include.compile_groups =
        vec![CompileGroup { defines: vec![], includes: vec![] }, CompileGroup { defines: vec![], includes: vec![s("/opt/quest/include")] }];
    assert!(shows_target_library(&by_include));

    let mut by_artifact = bare("t");
    by_artifact.artifacts = vec![s("build/app"), s("build/libQuEST.a")];
    assert!(extract(&by_artifact, false).found());
    assert_eq!(extract(&by_artifact, false).emit(), vec![]);

    let mut by_fragment = bare("t");
    by_fragment.link = LinkSection::Fragments(vec![CommandFragment { role: s("libraries"), text: s("quest") }]);
    assert!(shows_target_library(&by_fragment));

    let mut other_role = bare("t");
    other_role.link = LinkSection::Fragments(vec![CommandFragment { role: s("flags"), text: s("-DQUEST") }]);
    assert!(!shows_target_library(&other_role));

    let mut by_search_directory = bare("t");
    by_search_directory.link = LinkSection::Legacy { libraries: vec![s("m")], search_directories: vec![s("/opt/quest")] };
    assert!(!shows_target_library(&by_search_directory));

    assert!(!shows_target_library(&bare("quest_dummy")));
}

#[test]
fn windows_keeps_the_lib_prefix() {
    let mut target = bare("t");
    target.link = LinkSection::Legacy { libraries: vec![s("C:/quest/libQuEST.lib")], search_directories: vec![] };
    let result = extract(&target, true);
    assert_eq!(result.search_paths(), &vec![s("C:/quest")]);
    assert_eq!(result.libraries(), vec![(s("libQuEST"), true)]);
}

#[test]
fn groups_are_merged_without_duplicates() {
    let mut target = bare("t");
    target.compile_groups = vec![
        CompileGroup { defines: vec![s("A=1"), s("B")], includes: vec![s("/x"), s("/y")] },
        CompileGroup { defines: vec![s("A=2"), s("")], includes: vec![s("/y"), s("/z")] },
    ];
    let result = extract(&target, false);
    assert_eq!(result.includes(), &vec![s("/x"), s("/y"), s("/z")]);
    assert_eq!(result.defines(), vec![(s("A"), s("2")), (s("B"), s("1"))]);
}

#[test]
fn casing_policy_off_keeps_only_the_named_library() {
    let mut target = bare("t");
    target.link = LinkSection::Legacy { libraries: vec![s("-lQuEST")], search_directories: vec![] };
    let off = extract_with(&target, false, CasingPolicy { emit_variants: false });
    assert_eq!(off.libraries(), vec![(s("QuEST"), false)]);
    assert!(off.found());
    let on = extract_with(&target, false, CasingPolicy { emit_variants: true });
    assert_eq!(on, extract(&target, false));
    assert_eq!(on.libraries(), vec![(s("QuEST"), false), (s("quest"), false), (s("QUEST"), false)]);
}
