use quest_discovery::json::parse;
use quest_discovery::reply::{
    codemodel_from_index, decode_codemodel, holds_codemodel, locate_codemodel, locate_index,
    query_file_path, reply_directory_path, segments, CodemodelDocument, DirectoryEntry, EntryKind,
    ReplyLocation,
};

fn s(text: &str) -> String {
    text.to_string()
}

fn file(name: &str) -> DirectoryEntry {
    DirectoryEntry { name: s(name), kind: EntryKind::File }
}

fn directory(name: &str) -> DirectoryEntry {
    DirectoryEntry { name: s(name), kind: EntryKind::Directory }
}

#[test]
fn bare_file_is_found() {
    let entries = vec![file("cache-v2-1.json"), file("codemodel-v2-5f2d81.json"), file("index-1.json")];
    let location = locate_codemodel(&entries).unwrap();
    assert_eq!(location, ReplyLocation::File(s("codemodel-v2-5f2d81.json")));
    assert_eq!(segments(&location), vec![s("codemodel-v2-5f2d81.json")]);
}

#[test]
fn nested_file_is_found() {
    let entries = vec![file("index-1.json"), directory("codemodel-v2-5f2d81")];
    let location = locate_codemodel(&entries).unwrap();
    assert_eq!(location, ReplyLocation::Nested(s("codemodel-v2-5f2d81")));
    assert_eq!(segments(&location), vec![s("codemodel-v2-5f2d81"), s("codemodel-v2.json")]);
}

#[test]
fn first_entry_that_can_hold_the_model_wins() {
    let entries = vec![file("codemodel-v2"), directory("codemodel-v2-a"), file("codemodel-v2-b.json")];
    assert_eq!(locate_codemodel(&entries), Some(ReplyLocation::Nested(s("codemodel-v2-a"))));
    let entries = vec![file("codemodel-v2-b.json"), directory("codemodel-v2-a")];
    assert_eq!(locate_codemodel(&entries), Some(ReplyLocation::File(s("codemodel-v2-b.json"))));
}

#[test]
fn entries_that_cannot_hold_the_model_are_passed_over() {
    assert!(!holds_codemodel(&file("codemodel-v2")));
    assert!(!holds_codemodel(&file("codemodel-v2.txt")));
    assert!(!holds_codemodel(&file("xcodemodel-v2.json")));
    assert!(!holds_codemodel(&directory("codemodel")));
    assert!(!holds_codemodel(&DirectoryEntry { name: s("codemodel-v2.json"), kind: EntryKind::Other }));
    assert!(holds_codemodel(&file("codemodel-v2.json")));
    assert!(holds_codemodel(&directory("codemodel-v2")));
    assert_eq!(locate_codemodel(&vec![file("index-1.json"), file("codemodel-v2")]), None);
    assert_eq!(locate_codemodel(&vec![]), None);
}

#[test]
fn index_document_is_the_first_of_its_name_pattern() {
    let entries = vec![file("index.json"), file("index-a.txt"), directory("index-b.json"), file("index-c.json")];
    assert_eq!(locate_index(&entries), Some(s("index-b.json")));
    assert_eq!(locate_index(&vec![file("codemodel-v2.json")]), None);
}

#[test]
fn index_names_the_object_model() {
    let index = parse(
        "{\"objects\": [{\"kind\": \"cache\", \"jsonFile\": \"cache.json\"}, \
                        {\"kind\": \"codemodel\"}, \
                        {\"kind\": \"codemodel\", \"jsonFile\": \"cm-1.json\"}, \
                        {\"kind\": \"codemodel\", \"jsonFile\": \"cm-2.json\"}]}",
    )
    .unwrap();
    assert_eq!(codemodel_from_index(&index), Some(s("cm-1.json")));
    assert_eq!(codemodel_from_index(&parse("{\"objects\": []}").unwrap()), None);
    assert_eq!(codemodel_from_index(&parse("{\"objects\": 3}").unwrap()), None);
    assert_eq!(codemodel_from_index(&parse("[]").unwrap()), None);
}

#[test]
fn target_references_come_from_the_first_configuration() {
    let codemodel = parse(
        "{\"configurations\": [{\"targets\": [{\"name\": \"a\", \"jsonFile\": \"a.json\"}, {\"jsonFile\": \"b.json\"}]}, \
                               {\"targets\": [{\"jsonFile\": \"c.json\"}]}]}",
    )
    .unwrap();
    assert_eq!(
        decode_codemodel(&codemodel),
        Some(CodemodelDocument { target_files: vec![s("a.json"), s("b.json")] })
    );
    let none = parse("{\"configurations\": [{\"targets\": []}]}").unwrap();
    assert_eq!(decode_codemodel(&none), Some(CodemodelDocument { target_files: vec![] }));
}

#[test]
fn object_model_that_lacks_fields_gives_no_references() {
    for text in [
        "{}",
        "{\"configurations\": []}",
        "{\"configurations\": [{}]}",
        "{\"configurations\": [{\"targets\": 1}]}",
        "{\"configurations\": [{\"targets\": [{\"jsonFile\": \"a.json\"}, {\"name\": \"b\"}]}]}",
    ] {
        assert_eq!(decode_codemodel(&parse(text).unwrap()), None);
    }
}

#[test]
fn query_and_reply_lie_in_the_file_interface_of_the_tool() {
    assert_eq!(query_file_path(), vec![s(".cmake"), s("api"), s("v1"), s("query"), s("codemodel-v2")]);
    assert_eq!(reply_directory_path(), vec![s(".cmake"), s("api"), s("v1"), s("reply")]);
}
