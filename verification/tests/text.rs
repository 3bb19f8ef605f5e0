use quest_discovery::diagnostics::{content_preview, join_names, listing_message, malformed_message, DiscoveryError};
use quest_discovery::reply::{DirectoryEntry, EntryKind};
use quest_discovery::text::{
    chars_of, contains_ignoring_case, equals_ignoring_case, find_first, find_last, has_prefix,
    has_suffix, lower, matches_at, same_text, slice_of,
};

fn s(text: &str) -> String {
    text.to_string()
}

#[test]
fn characters_are_counted_not_bytes() {
    assert_eq!(chars_of("a\u{e9}b"), vec!['a', '\u{e9}', 'b']);
    assert_eq!(slice_of("a\u{e9}bc", 1, 3), "\u{e9}b");
    assert_eq!(slice_of("abc", 3, 3), "");
}

#[test]
fn prefixes_and_suffixes() {
    let text = chars_of("libfoo.a");
    assert!(has_prefix(&text, "lib"));
    assert!(has_prefix(&text, ""));
    assert!(!has_prefix(&text, "libfoo.ab"));
    assert!(!has_prefix(&text, "Lib"));
    assert!(has_suffix(&text, ".a"));
    assert!(has_suffix(&text, "libfoo.a"));
    assert!(!has_suffix(&text, ".so"));
    assert!(!has_suffix(&chars_of("a"), ".a"));
}

#[test]
fn first_and_last_occurrences() {
    let text = chars_of("a=b=c");
    assert_eq!(find_first(&text, '='), 1);
    assert_eq!(find_first(&text, 'x'), 5);
    assert_eq!(find_last(&text, '=', '='), Some(3));
    assert_eq!(find_last(&chars_of("a/b\\c"), '/', '\\'), Some(3));
    assert_eq!(find_last(&chars_of("abc"), '/', '\\'), None);
    assert_eq!(find_last(&chars_of(""), '.', '.'), None);
}

#[test]
fn case_of_ascii_letters_is_folded() {
    assert_eq!(lower('A'), 'a');
    assert_eq!(lower('Z'), 'z');
    assert_eq!(lower('a'), 'a');
    assert_eq!(lower('['), '[');
    assert_eq!(lower('@'), '@');
    assert_eq!(lower('\u{c9}'), '\u{c9}');
    assert!(equals_ignoring_case(&chars_of("QuEST"), &chars_of("quest")));
    assert!(!equals_ignoring_case(&chars_of("QuEST"), &chars_of("quests")));
    assert!(contains_ignoring_case(&chars_of("libQUEST.so"), &chars_of("QuEST")));
    assert!(contains_ignoring_case(&chars_of("abc"), &chars_of("")));
    assert!(!contains_ignoring_case(&chars_of("que"), &chars_of("quest")));
    assert!(matches_at(&chars_of("xxQuEsT"), &chars_of("quest"), 2));
    assert!(!matches_at(&chars_of("xxQuEsT!"), &chars_of("quest"), 3));
    assert!(same_text(&s("a"), &s("a")));
    assert!(!same_text(&s("a"), &s("A")));
}

#[test]
fn preview_shows_at_most_a_hundred_characters() {
    assert_eq!(content_preview("short"), "short");
    let exact = "y".repeat(100);
    assert_eq!(content_preview(&exact), exact);
    let longer = "y".repeat(101);
    assert_eq!(content_preview(&longer), format!("{}...", exact));
}

#[test]
fn names_are_joined_with_commas() {
    let entries = vec![
        DirectoryEntry { name: s("a"), kind: EntryKind::File },
        DirectoryEntry { name: s("b"), kind: EntryKind::Directory },
        DirectoryEntry { name: s("c"), kind: EntryKind::Other },
    ];
    assert_eq!(join_names(&entries), "a, b, c");
    assert_eq!(join_names(&entries[..1].to_vec()), "a");
    assert_eq!(join_names(&vec![]), "");
    assert_eq!(
        listing_message(&vec![]),
        "Failed to find codemodel file in CMake file-api reply directory. Available files: "
    );
    assert_eq!(
        malformed_message("{"),
        "Failed to parse a JSON document of the CMake file-api reply. Content preview: {"
    );
}

#[test]
fn every_error_but_target_not_found_is_terminal() {
    for e in [
        DiscoveryError::ToolInvocationFailed,
        DiscoveryError::ReplyDirectoryMissing,
        DiscoveryError::ReplyDocumentMissing,
        DiscoveryError::MalformedDocument,
        DiscoveryError::LibraryUnresolved,
    ] {
        assert!(e.is_terminal());
    }
    assert!(!DiscoveryError::TargetNotFound.is_terminal());
}
