use quest_discovery::diagnostics::DiscoveryError;
use quest_discovery::directive::ClassifiedDirective;
use quest_discovery::fallback::ProbeReport;
use quest_discovery::json::{parse, Json};
use quest_discovery::pipeline::{matching_target, read_document, Action, Document, Event, Pipeline, Stage};
use quest_discovery::reply::{DirectoryEntry, EntryKind};

const CODEMODEL: &str = "{\"configurations\": [{\"targets\": [\
    {\"name\": \"other\", \"jsonFile\": \"target-other.json\"}, \
    {\"name\": \"quest_dummy\", \"jsonFile\": \"target-quest_dummy.json\"}, \
    {\"name\": \"last\", \"jsonFile\": \"target-last.json\"}]}]}";

const OTHER: &str = "{\"name\": \"other\", \"artifacts\": [{\"path\": \"libQuEST.so\"}]}";

const DUMMY: &str = "{\"name\": \"quest_dummy\", \
    \"compileGroups\": [{\"defines\": [{\"define\": \"FLOAT_PRECISION=2\"}], \"includes\": [{\"path\": \"/inc\"}]}], \
    \"link\": {\"libraries\": [{\"name\": \"-lQuEST\"}]}}";

const DUMMY_WITHOUT_LIBRARY: &str = "{\"name\": \"quest_dummy\", \"link\": {\"libraries\": [{\"name\": \"-lm\"}]}}";

fn s(text: &str) -> String {
    text.to_string()
}

fn file(name: &str) -> DirectoryEntry {
    DirectoryEntry { name: s(name), kind: EntryKind::File }
}

fn read(text: &str) -> Event {
    Event::DocumentRead(read_document(Some(text)))
}

fn step(p: Pipeline, event: Event) -> Pipeline {
    p.step(event, "quest_dummy", false)
}

fn located() -> Pipeline {
    let p = Pipeline::new();
    assert_eq!(p.stage(), Stage::Init);
    assert_eq!(p.next_action(), Action::WriteQuery);
    let p = step(p, Event::QueryWritten);
    assert_eq!(p.stage(), Stage::QueryWritten);
    assert_eq!(p.next_action(), Action::InvokeTool);
    let p = step(p, Event::ToolExited { success: true, output: s("ok") });
    assert_eq!(p.stage(), Stage::ToolInvoked);
    assert_eq!(p.next_action(), Action::ListReplyDirectory);
    let p = step(p, Event::ReplyListed(Some(vec![file("index-1.json"), file("codemodel-v2-1.json")])));
    assert_eq!(p.stage(), Stage::ReplyLocated);
    assert_eq!(p.next_action(), Action::ReadDocument(vec![s("codemodel-v2-1.json")]));
    p
}

fn searching() -> Pipeline {
    let p = step(located(), read(CODEMODEL));
    assert_eq!(p.stage(), Stage::ReplyLocated);
    assert_eq!(p.next_action(), Action::ReadDocument(vec![s("target-other.json")]));
    p
}

#[test]
fn discovery_runs_from_query_to_directives() {
    let p = step(searching(), read(OTHER));
    assert_eq!(p.next_action(), Action::ReadDocument(vec![s("target-quest_dummy.json")]));
    let p = step(p, read(DUMMY));
    assert_eq!(p.stage(), Stage::TargetParsed);
    assert_eq!(p.next_action(), Action::Proceed);
    let p = step(p, Event::Proceeded);
    assert_eq!(p.stage(), Stage::Found);
    assert_eq!(p.error(), None);
    assert!(p.result().unwrap().found());
    assert_eq!(
        p.next_action(),
        Action::Emit(vec![
            ClassifiedDirective::IncludePath(s("/inc")),
            ClassifiedDirective::Define(s("FLOAT_PRECISION"), s("2")),
            ClassifiedDirective::LinkLibrary(s("QuEST"), false),
            ClassifiedDirective::LinkLibrary(s("quest"), false),
            ClassifiedDirective::LinkLibrary(s("QUEST"), false),
        ])
    );
    let p = step(p, Event::Emitted);
    assert_eq!(p.stage(), Stage::DirectivesEmitted);
    assert_eq!(p.next_action(), Action::Finish);
    assert!(p.result().is_none());
}

#[test]
fn search_without_match_leads_to_the_probe() {
    let p = step(searching(), read(OTHER));
    let p = step(p, read("{\"name\": \"quest\"}"));
    assert_eq!(p.next_action(), Action::ReadDocument(vec![s("target-last.json")]));
    let p = step(p, read("{\"name\": \"last\"}"));
    assert_eq!(p.stage(), Stage::TargetParsed);
    let p = step(p, Event::Proceeded);
    assert_eq!(p.stage(), Stage::NotFound);
    assert_eq!(p.error(), Some(DiscoveryError::TargetNotFound));
    assert!(!DiscoveryError::TargetNotFound.is_terminal());
    assert_eq!(p.next_action(), Action::ProbeRegistry);
}

#[test]
fn target_that_does_not_show_the_library_leads_to_the_probe() {
    let p = step(step(searching(), read(OTHER)), read(DUMMY_WITHOUT_LIBRARY));
    assert_eq!(p.stage(), Stage::TargetParsed);
    let p = step(p, Event::Proceeded);
    assert_eq!(p.stage(), Stage::NotFound);
    assert_eq!(p.next_action(), Action::ProbeRegistry);
}

fn not_found() -> Pipeline {
    step(step(step(searching(), read(OTHER)), read(DUMMY_WITHOUT_LIBRARY)), Event::Proceeded)
}

#[test]
fn probe_result_replaces_the_structured_one() {
    let report = ProbeReport {
        include_paths: vec![s("/usr/include/quest")],
        libraries: vec![s("QuEST"), s("m")],
        search_paths: vec![s("/usr/lib")],
        definitions: vec![s("FLOAT_PRECISION=1"), s("QUEST_PKG")],
    };
    let p = step(not_found(), Event::Probed(Some(report)));
    assert_eq!(p.stage(), Stage::FallbackProbed);
    assert_eq!(p.next_action(), Action::Proceed);
    let p = step(p, Event::Proceeded);
    assert_eq!(p.stage(), Stage::Found);
    assert_eq!(
        p.next_action(),
        Action::Emit(vec![
            ClassifiedDirective::IncludePath(s("/usr/include/quest")),
            ClassifiedDirective::Define(s("FLOAT_PRECISION"), s("1")),
            ClassifiedDirective::Define(s("QUEST_PKG"), s("1")),
            ClassifiedDirective::LinkSearchPath(s("/usr/lib")),
            ClassifiedDirective::LinkLibrary(s("QuEST"), false),
            ClassifiedDirective::LinkLibrary(s("m"), false),
        ])
    );
}

#[test]
fn failed_probe_leaves_the_library_unresolved() {
    let p = step(step(not_found(), Event::Probed(None)), Event::Proceeded);
    assert_eq!(p.stage(), Stage::Unresolved);
    assert_eq!(p.error(), Some(DiscoveryError::LibraryUnresolved));
    assert!(DiscoveryError::LibraryUnresolved.is_terminal());
    match p.next_action() {
        Action::Abort(DiscoveryError::LibraryUnresolved, text) => {
            assert!(text.contains("QUEST_DIR"));
            assert!(text.contains("pkg-config"));
        }
        other => panic!("unexpected action {:?}", other),
    }
    let p = step(p, Event::Probed(None));
    assert_eq!(p.stage(), Stage::Unresolved);
}

#[test]
fn tool_failure_ends_the_discovery_with_its_output() {
    let p = step(Pipeline::new(), Event::QueryWritten);
    let p = step(p, Event::ToolExited { success: false, output: s("CMake Error: no compiler") });
    assert_eq!(p.stage(), Stage::Failed);
    assert_eq!(p.error(), Some(DiscoveryError::ToolInvocationFailed));
    assert_eq!(
        p.next_action(),
        Action::Abort(DiscoveryError::ToolInvocationFailed, s("CMake Error: no compiler"))
    );
    let p = step(p, Event::ToolExited { success: true, output: s("") });
    assert_eq!(p.stage(), Stage::Failed);
}

#[test]
fn missing_reply_directory_ends_the_discovery() {
    let p = step(Pipeline::new(), Event::QueryWritten);
    let p = step(p, Event::ToolExited { success: true, output: s("") });
    let p = step(p, Event::ReplyListed(None));
    assert_eq!(
        p.next_action(),
        Action::Abort(
            DiscoveryError::ReplyDirectoryMissing,
            s("CMake file-api reply directory not found. CMake might have failed to run properly.")
        )
    );
}

#[test]
fn reply_without_object_model_lists_what_is_there() {
    let p = step(Pipeline::new(), Event::QueryWritten);
    let p = step(p, Event::ToolExited { success: true, output: s("") });
    let p = step(p, Event::ReplyListed(Some(vec![file("a.json"), file("codemodel-v2"), file("b")])));
    assert_eq!(p.stage(), Stage::Failed);
    assert_eq!(
        p.next_action(),
        Action::Abort(
            DiscoveryError::ReplyDocumentMissing,
            s("Failed to find codemodel file in CMake file-api reply directory. Available files: a.json, codemodel-v2, b")
        )
    );
}

fn awaiting_index() -> Pipeline {
    let p = step(Pipeline::new(), Event::QueryWritten);
    let p = step(p, Event::ToolExited { success: true, output: s("") });
    let p = step(p, Event::ReplyListed(Some(vec![file("readme"), file("index-2024.json")])));
    assert_eq!(p.stage(), Stage::ToolInvoked);
    assert_eq!(p.next_action(), Action::ReadDocument(vec![s("index-2024.json")]));
    p
}

#[test]
fn index_document_leads_to_the_object_model() {
    let p = step(awaiting_index(), read("{\"objects\": [{\"kind\": \"codemodel\", \"jsonFile\": \"cm.json\"}]}"));
    assert_eq!(p.stage(), Stage::ReplyLocated);
    assert_eq!(p.next_action(), Action::ReadDocument(vec![s("cm.json")]));
}

#[test]
fn useless_index_document_counts_as_no_object_model() {
    for event in [read("{\"objects\": []}"), read("{"), Event::DocumentRead(read_document(None))] {
        let p = step(awaiting_index(), event);
        assert_eq!(
            p.next_action(),
            Action::Abort(
                DiscoveryError::ReplyDocumentMissing,
                s("Failed to find codemodel file in CMake file-api reply directory. Available files: readme, index-2024.json")
            )
        );
    }
}

#[test]
fn malformed_document_ends_the_discovery_and_never_leads_to_the_probe() {
    let long = "x".repeat(150);
    let p = step(located(), read(&long));
    assert_eq!(p.stage(), Stage::Failed);
    assert_eq!(p.error(), Some(DiscoveryError::MalformedDocument));
    let expected = format!(
        "Failed to parse a JSON document of the CMake file-api reply. Content preview: {}...",
        "x".repeat(100)
    );
    assert_eq!(p.next_action(), Action::Abort(DiscoveryError::MalformedDocument, expected));

    let p = step(searching(), read("{\"name\": "));
    assert_eq!(p.stage(), Stage::Failed);
    assert_eq!(
        p.next_action(),
        Action::Abort(
            DiscoveryError::MalformedDocument,
            s("Failed to parse a JSON document of the CMake file-api reply. Content preview: {\"name\": ")
        )
    );
    let p = step(p, Event::Proceeded);
    assert_eq!(p.stage(), Stage::Failed);
}

#[test]
fn unreadable_document_ends_the_discovery() {
    let p = step(searching(), Event::DocumentRead(Document::Unreadable));
    assert_eq!(
        p.next_action(),
        Action::Abort(
            DiscoveryError::ReplyDocumentMissing,
            s("Failed to read a document of the CMake file-api reply.")
        )
    );
}

#[test]
fn object_model_that_lacks_fields_is_malformed() {
    let p = step(located(), read("{\"configurations\": [{}]}"));
    assert_eq!(
        p.next_action(),
        Action::Abort(
            DiscoveryError::MalformedDocument,
            s("The codemodel document names no configuration, no targets, or a target without a file.")
        )
    );
}

#[test]
fn object_model_without_targets_finds_nothing() {
    let p = step(located(), read("{\"configurations\": [{\"targets\": []}]}"));
    assert_eq!(p.stage(), Stage::TargetParsed);
    let p = step(p, Event::Proceeded);
    assert_eq!(p.stage(), Stage::NotFound);
}

#[test]
fn events_that_are_not_awaited_change_nothing() {
    let p = step(Pipeline::new(), Event::Proceeded);
    assert_eq!(p.stage(), Stage::Init);
    let p = step(p, Event::Emitted);
    assert_eq!(p.stage(), Stage::Init);
    let p = step(searching(), Event::QueryWritten);
    assert_eq!(p.next_action(), Action::ReadDocument(vec![s("target-other.json")]));
    let p = step(not_found(), Event::Proceeded);
    assert_eq!(p.stage(), Stage::NotFound);
}

#[test]
fn first_target_of_the_name_wins() {
    let first = "{\"name\": \"quest_dummy\", \"compileGroups\": [{\"includes\": [{\"path\": \"/first/quest\"}]}]}";
    let p = step(searching(), read(first));
    assert_eq!(p.stage(), Stage::TargetParsed);
    let p = step(p, read(DUMMY));
    let p = step(p, Event::Proceeded);
    assert_eq!(p.next_action(), Action::Emit(vec![ClassifiedDirective::IncludePath(s("/first/quest"))]));
}

#[test]
fn target_is_matched_by_its_exact_name() {
    let doc = parse(DUMMY).unwrap();
    assert_eq!(matching_target(&doc, "quest_dummy").map(|t| t.name), Some(s("quest_dummy")));
    assert_eq!(matching_target(&doc, "quest"), None);
    assert_eq!(matching_target(&doc, "QUEST_DUMMY"), None);
    assert_eq!(matching_target(&Json::Null, "quest_dummy"), None);
}

#[test]
fn documents_are_read_from_text() {
    assert_eq!(read_document(None), Document::Unreadable);
    assert_eq!(read_document(Some("[")), Document::Malformed(s("[")));
    assert_eq!(read_document(Some("[]")), Document::Parsed(Json::Array(vec![])));
}
