use quest_discovery::classify::{classify, classify_core, classify_with, kind_of, CasingPolicy, SpecifierKind};
use quest_discovery::directive::ClassifiedDirective;

fn lib(name: &str, is_static: bool) -> ClassifiedDirective {
    ClassifiedDirective::LinkLibrary(name.to_string(), is_static)
}

fn dir(path: &str) -> ClassifiedDirective {
    ClassifiedDirective::LinkSearchPath(path.to_string())
}

#[test]
fn library_flag_gives_one_dynamic_library() {
    assert_eq!(classify("-lfoo", false), vec![lib("foo", false)]);
    assert_eq!(classify("-lfoo", true), vec![lib("foo", false)]);
}

#[test]
fn search_path_flag_gives_one_search_path() {
    assert_eq!(classify("-L/usr/lib", false), vec![dir("/usr/lib")]);
}

#[test]
fn shared_library_path_gives_directory_and_casing_variants() {
    assert_eq!(
        classify("/opt/lib/libQuEST.so", false),
        vec![dir("/opt/lib"), lib("QuEST", false), lib("quest", false), lib("QUEST", false)]
    );
}

#[test]
fn bare_archive_gives_one_static_library() {
    assert_eq!(classify("libfoo.a", false), vec![lib("foo", true)]);
}

#[test]
fn archive_keeps_lib_prefix_on_windows() {
    assert_eq!(classify("libfoo.a", true), vec![lib("libfoo", true)]);
    assert_eq!(classify("C:\\libs\\foo.lib", true), vec![dir("C:\\libs"), lib("foo", true)]);
}

#[test]
fn empty_specifier_gives_nothing() {
    assert_eq!(classify("", false), Vec::<ClassifiedDirective>::new());
    assert_eq!(kind_of(""), SpecifierKind::Empty);
}

#[test]
fn plain_token_is_a_dynamic_library() {
    assert_eq!(classify("m", false), vec![lib("m", false)]);
    assert_eq!(classify("foo.bar", false), vec![lib("foo.bar", false)]);
    assert_eq!(kind_of("pthread"), SpecifierKind::PlainToken);
}

#[test]
fn plain_target_name_gets_the_missing_variants() {
    assert_eq!(
        classify("quest", false),
        vec![lib("quest", false), lib("QuEST", false), lib("QUEST", false)]
    );
    assert_eq!(
        classify("-lQuEST", false),
        vec![lib("QuEST", false), lib("quest", false), lib("QUEST", false)]
    );
}

#[test]
fn casing_policy_can_be_switched_off() {
    let off = CasingPolicy { emit_variants: false };
    assert_eq!(classify_with("-lQuEST", false, off), vec![lib("QuEST", false)]);
    assert_eq!(classify_core("/opt/lib/libQuEST.so", false), vec![dir("/opt/lib"), lib("QuEST", false)]);
}

#[test]
fn static_target_archive_gets_dynamic_variants() {
    assert_eq!(
        classify("/opt/libquest.a", false),
        vec![dir("/opt"), lib("quest", true), lib("QuEST", false), lib("quest", false), lib("QUEST", false)]
    );
}

#[test]
fn path_without_known_ending_infers_kind_from_extension() {
    assert_eq!(kind_of("/opt/lib/libfoo.so.1"), SpecifierKind::PathLike);
    assert_eq!(classify("/opt/lib/libfoo.so.1", false), vec![dir("/opt/lib"), lib("foo.so", false)]);
    assert_eq!(classify("/opt/lib/FOO.LIB", true), vec![dir("/opt/lib"), lib("FOO", true)]);
    assert_eq!(classify("/libz.so", false), vec![dir("/"), lib("z", false)]);
    assert_eq!(classify("/opt/lib/", false), vec![dir("/opt/lib"), lib("/opt/lib/", false)]);
}

#[test]
fn classification_is_repeatable() {
    let first = classify("/opt/lib/libQuEST.so", false);
    let _other = classify("-lfoo", true);
    let second = classify("/opt/lib/libQuEST.so", false);
    assert_eq!(first, second);
}
