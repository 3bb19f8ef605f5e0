//! The discovery as a state machine. The machine decides; whoever drives it does the
//! outside work: it performs the action that the machine names and hands back the
//! event that tells how the action went.

use crate::diagnostics::{
    content_preview,
    incomplete_message,
    incomplete_text,
    is_terminal_error,
    listing_message,
    listing_text,
    malformed_message,
    malformed_text,
    preview_of,
    reply_directory_missing_message,
    reply_directory_missing_text,
    unreadable_message,
    unreadable_text,
    unresolved_message,
    unresolved_text,
    DiscoveryError,
};
use crate::directive::{directive_views, ClassifiedDirective, DirectiveView};
use crate::fallback::{from_probe, probed, ProbeReport, ProbeView};
use crate::json::{parse, parsed_document, Json, JsonView};
use crate::reply::{
    codemodel_from_index,
    codemodel_in_index,
    entry_names,
    entry_views,
    index_name,
    locate_codemodel,
    locate_index,
    located,
    decode_codemodel,
    segments,
    segments_of,
    target_references,
    DirectoryEntry,
    EntryView,
    LocationView,
    ReplyLocation,
};
use crate::result::{DiscoveryResult, DiscoveryView};
use crate::target::{
    decode_target,
    decoded_target,
    extract,
    extraction,
    lemma_extraction_found,
    TargetDescriptor,
};
use crate::text::{owned, same_text, texts};
use vstd::prelude::*;

verus! {

/// How far a discovery has come.
#[derive(Debug, Clone, Copy, PartialEq, Eq, Structural)]
pub enum Stage {
    Init,
    QueryWritten,
    ToolInvoked,
    ReplyLocated,
    TargetParsed,
    NotFound,
    FallbackProbed,
    Found,
    DirectivesEmitted,
    Unresolved,
    Failed,
}

/// A document of the reply, as far as it could be read.
#[derive(Debug, PartialEq, Eq)]
pub enum Document {
    /// The file could not be read.
    Unreadable,
    /// The file is not valid JSON; the text shows how it starts.
    Malformed(String),
    Parsed(Json),
}

/// The mathematical value of a `Document`.
pub enum DocumentView {
    Unreadable,
    Malformed(Seq<char>),
    Parsed(JsonView),
}

/// How the action that the machine named went.
#[derive(Debug, PartialEq, Eq)]
pub enum Event {
    /// The query artifact is in place.
    QueryWritten,
    /// The configuration tool has ended; `output` is what it printed.
    ToolExited { success: bool, output: String },
    /// The entries of the reply directory; none where there is no such directory.
    ReplyListed(Option<Vec<DirectoryEntry>>),
    /// The document that was asked for.
    DocumentRead(Document),
    /// Nothing was to be done outside.
    Proceeded,
    /// What the package registry reported; nothing where it does not know the library.
    Probed(Option<ProbeReport>),
    /// The directives were handed on.
    Emitted,
}

/// The mathematical value of an `Event`.
pub enum EventView {
    QueryWritten,
    ToolExited { success: bool, output: Seq<char> },
    ReplyListed(Option<Seq<EntryView>>),
    DocumentRead(DocumentView),
    Proceeded,
    Probed(Option<ProbeView>),
    Emitted,
}

/// What is to be done outside next.
#[derive(Debug, Clone, PartialEq, Eq)]
pub enum Action {
    /// Put the query artifact in place.
    WriteQuery,
    /// Run the configuration tool and wait for it.
    InvokeTool,
    /// List the entries of the reply directory.
    ListReplyDirectory,
    /// Read the document at this path, segment by segment, below the reply directory.
    ReadDocument(Vec<String>),
    /// Nothing outside; hand back `Proceeded`.
    Proceed,
    /// Ask the package registry for the target library.
    ProbeRegistry,
    /// Hand these directives to the compiler and linker invocation.
    Emit(Vec<ClassifiedDirective>),
    /// The discovery is done.
    Finish,
    /// Give up the build, with this diagnostic.
    Abort(DiscoveryError, String),
}

/// The mathematical value of an `Action`.
pub enum ActionView {
    WriteQuery,
    InvokeTool,
    ListReplyDirectory,
    ReadDocument(Seq<Seq<char>>),
    Proceed,
    ProbeRegistry,
    Emit(Seq<DirectiveView>),
    Finish,
    Abort(DiscoveryError, Seq<char>),
}

/// The state of a discovery.
pub enum StateView {
    Init,
    QueryWritten,
    /// The tool has run; the listing of the reply directory is awaited.
    AwaitingListing,
    /// The tool has run and no entry can hold the object model; the index document is
    /// awaited.
    AwaitingIndex { name: Seq<char>, entries: Seq<EntryView> },
    /// The object model is located; its document is awaited.
    AwaitingCodemodel { location: LocationView },
    /// The object model is read; the document of the target reference `next` is
    /// awaited.
    AwaitingTarget { references: Seq<Seq<char>>, next: int },
    /// The search for the target is over; `result` is what it gave.
    TargetParsed { result: DiscoveryView },
    /// The structured discovery did not find the library; the probe is awaited.
    NotFound,
    /// The registry has been probed.
    FallbackProbed { report: Option<ProbeView> },
    /// The library is found; the directives are to be emitted.
    Found { result: DiscoveryView },
    DirectivesEmitted,
    /// Neither channel found the library.
    Unresolved,
    Failed { error: DiscoveryError, diagnostic: Seq<char> },
}

impl View for Document {
    type V = DocumentView;

    open spec fn view(&self) -> DocumentView {
        match self {
            Document::Unreadable => DocumentView::Unreadable,
            Document::Malformed(preview) => DocumentView::Malformed(preview@),
            Document::Parsed(j) => DocumentView::Parsed(j@),
        }
    }
}

impl View for Event {
    type V = EventView;

    open spec fn view(&self) -> EventView {
        match self {
            Event::QueryWritten => EventView::QueryWritten,
            Event::ToolExited { success, output } => EventView::ToolExited {
                success: *success,
                output: output@,
            },
            Event::ReplyListed(listing) => EventView::ReplyListed(
                match listing {
                    Some(entries) => Some(entry_views(entries@)),
                    None => None,
                },
            ),
            Event::DocumentRead(doc) => EventView::DocumentRead(doc@),
            Event::Proceeded => EventView::Proceeded,
            Event::Probed(report) => EventView::Probed(
                match report {
                    Some(r) => Some(r@),
                    None => None,
                },
            ),
            Event::Emitted => EventView::Emitted,
        }
    }
}

impl View for Action {
    type V = ActionView;

    open spec fn view(&self) -> ActionView {
        match self {
            Action::WriteQuery => ActionView::WriteQuery,
            Action::InvokeTool => ActionView::InvokeTool,
            Action::ListReplyDirectory => ActionView::ListReplyDirectory,
            Action::ReadDocument(path) => ActionView::ReadDocument(texts(path@)),
            Action::Proceed => ActionView::Proceed,
            Action::ProbeRegistry => ActionView::ProbeRegistry,
            Action::Emit(list) => ActionView::Emit(directive_views(list@)),
            Action::Finish => ActionView::Finish,
            Action::Abort(error, diagnostic) => ActionView::Abort(*error, diagnostic@),
        }
    }
}

/// What reading a file gave: nothing, a document, or text that is no document.
pub open spec fn document_for(text: Option<Seq<char>>) -> DocumentView {
    match text {
        None => DocumentView::Unreadable,
        Some(t) => match parsed_document(t) {
            Some(j) => DocumentView::Parsed(j),
            None => DocumentView::Malformed(preview_of(t)),
        },
    }
}

/// The stage that a state belongs to.
pub open spec fn stage_of(s: StateView) -> Stage {
    match s {
        StateView::Init => Stage::Init,
        StateView::QueryWritten => Stage::QueryWritten,
        StateView::AwaitingListing => Stage::ToolInvoked,
        StateView::AwaitingIndex { .. } => Stage::ToolInvoked,
        StateView::AwaitingCodemodel { .. } => Stage::ReplyLocated,
        StateView::AwaitingTarget { .. } => Stage::ReplyLocated,
        StateView::TargetParsed { .. } => Stage::TargetParsed,
        StateView::NotFound => Stage::NotFound,
        StateView::FallbackProbed { .. } => Stage::FallbackProbed,
        StateView::Found { .. } => Stage::Found,
        StateView::DirectivesEmitted => Stage::DirectivesEmitted,
        StateView::Unresolved => Stage::Unresolved,
        StateView::Failed { .. } => Stage::Failed,
    }
}

/// The place of a stage in the order in which a discovery passes its stages.
pub open spec fn rank(stage: Stage) -> int {
    match stage {
        Stage::Init => 0,
        Stage::QueryWritten => 1,
        Stage::ToolInvoked => 2,
        Stage::ReplyLocated => 3,
        Stage::TargetParsed => 4,
        Stage::NotFound => 5,
        Stage::FallbackProbed => 6,
        Stage::Found => 7,
        Stage::DirectivesEmitted => 8,
        Stage::Unresolved => 8,
        Stage::Failed => 8,
    }
}

/// The stage is one at which a discovery ends.
pub open spec fn is_final(stage: Stage) -> bool {
    stage == Stage::DirectivesEmitted || stage == Stage::Unresolved || stage == Stage::Failed
}

/// The state holds what its stage needs: a target reference that is awaited is one of
/// the references, a result is well-formed, and a failure is of a kind that ends the
/// discovery.
pub open spec fn state_wf(s: StateView) -> bool {
    match s {
        StateView::AwaitingTarget { references, next } => 0 <= next < references.len(),
        StateView::TargetParsed { result } => result.wf(),
        StateView::Found { result } => result.wf() && result.found,
        StateView::Failed { error, diagnostic } => is_terminal_error(error),
        _ => true,
    }
}

/// The error that a state stands for, if it stands for one.
pub open spec fn error_of(s: StateView) -> Option<DiscoveryError> {
    match s {
        StateView::NotFound => Some(DiscoveryError::TargetNotFound),
        StateView::Unresolved => Some(DiscoveryError::LibraryUnresolved),
        StateView::Failed { error, diagnostic } => Some(error),
        _ => None,
    }
}

/// The state after the reply directory was listed.
pub open spec fn after_listing(listing: Option<Seq<EntryView>>) -> StateView {
    match listing {
        None => StateView::Failed {
            error: DiscoveryError::ReplyDirectoryMissing,
            diagnostic: reply_directory_missing_text(),
        },
        Some(entries) => match located(entries) {
            Some(location) => StateView::AwaitingCodemodel { location },
            None => match index_name(entries) {
                Some(name) => StateView::AwaitingIndex { name, entries },
                None => StateView::Failed {
                    error: DiscoveryError::ReplyDocumentMissing,
                    diagnostic: listing_text(entry_names(entries)),
                },
            },
        },
    }
}

/// The state after the index document was read: the object model is located where the
/// index names it; any other outcome leaves the reply without an object model.
pub open spec fn after_index(entries: Seq<EntryView>, doc: DocumentView) -> StateView {
    let missing = StateView::Failed {
        error: DiscoveryError::ReplyDocumentMissing,
        diagnostic: listing_text(entry_names(entries)),
    };
    match doc {
        DocumentView::Parsed(index) => match codemodel_in_index(index) {
            Some(file) => StateView::AwaitingCodemodel { location: LocationView::File(file) },
            None => missing,
        },
        _ => missing,
    }
}

/// The state for a document that gave no JSON.
pub open spec fn after_broken(doc: DocumentView) -> StateView {
    match doc {
        DocumentView::Malformed(preview) => StateView::Failed {
            error: DiscoveryError::MalformedDocument,
            diagnostic: malformed_text(preview),
        },
        _ => StateView::Failed {
            error: DiscoveryError::ReplyDocumentMissing,
            diagnostic: unreadable_text(),
        },
    }
}

/// The state after the object model was read.
pub open spec fn after_codemodel(doc: DocumentView) -> StateView {
    match doc {
        DocumentView::Parsed(codemodel) => match target_references(codemodel) {
            Some(references) => if references.len() == 0 {
                StateView::TargetParsed { result: DiscoveryView::empty() }
            } else {
                StateView::AwaitingTarget { references, next: 0 }
            },
            None => StateView::Failed {
                error: DiscoveryError::MalformedDocument,
                diagnostic: incomplete_text(),
            },
        },
        _ => after_broken(doc),
    }
}

/// The document describes a target of the name `wanted`.
pub open spec fn names_wanted(doc: JsonView, wanted: Seq<char>) -> bool {
    match decoded_target(doc) {
        Some(t) => t.name == wanted,
        None => false,
    }
}

/// The state after a target document that is not the one looked for: the next
/// reference is awaited, or the search is over with nothing found.
pub open spec fn after_other_target(references: Seq<Seq<char>>, next: int) -> StateView {
    if next + 1 < references.len() {
        StateView::AwaitingTarget { references, next: next + 1 }
    } else {
        StateView::TargetParsed { result: DiscoveryView::empty() }
    }
}

/// The state after the document of the target reference `next` was read: the first
/// document that describes a target of the name `wanted` ends the search.
pub open spec fn after_target(
    references: Seq<Seq<char>>,
    next: int,
    doc: DocumentView,
    wanted: Seq<char>,
    windows: bool,
) -> StateView {
    match doc {
        DocumentView::Parsed(j) => if names_wanted(j, wanted) {
            StateView::TargetParsed { result: extraction(decoded_target(j).unwrap(), windows) }
        } else {
            after_other_target(references, next)
        },
        _ => after_broken(doc),
    }
}

/// The state that follows `s` on the event `e`. An event that `s` does not await
/// leaves it as it is.
pub open spec fn next_state(
    s: StateView,
    e: EventView,
    wanted: Seq<char>,
    windows: bool,
) -> StateView {
    match s {
        StateView::Init => match e {
            EventView::QueryWritten => StateView::QueryWritten,
            _ => s,
        },
        StateView::QueryWritten => match e {
            EventView::ToolExited { success, output } => if success {
                StateView::AwaitingListing
            } else {
                StateView::Failed {
                    error: DiscoveryError::ToolInvocationFailed,
                    diagnostic: output,
                }
            },
            _ => s,
        },
        StateView::AwaitingListing => match e {
            EventView::ReplyListed(listing) => after_listing(listing),
            _ => s,
        },
        StateView::AwaitingIndex { name, entries } => match e {
            EventView::DocumentRead(doc) => after_index(entries, doc),
            _ => s,
        },
        StateView::AwaitingCodemodel { location } => match e {
            EventView::DocumentRead(doc) => after_codemodel(doc),
            _ => s,
        },
        StateView::AwaitingTarget { references, next } => match e {
            EventView::DocumentRead(doc) => after_target(references, next, doc, wanted, windows),
            _ => s,
        },
        StateView::TargetParsed { result } => match e {
            EventView::Proceeded => if result.found {
                StateView::Found { result }
            } else {
                StateView::NotFound
            },
            _ => s,
        },
        StateView::NotFound => match e {
            EventView::Probed(report) => StateView::FallbackProbed { report },
            _ => s,
        },
        StateView::FallbackProbed { report } => match e {
            EventView::Proceeded => match report {
                Some(r) => StateView::Found { result: probed(r) },
                None => StateView::Unresolved,
            },
            _ => s,
        },
        StateView::Found { result } => match e {
            EventView::Emitted => StateView::DirectivesEmitted,
            _ => s,
        },
        StateView::DirectivesEmitted => s,
        StateView::Unresolved => s,
        StateView::Failed { .. } => s,
    }
}

/// What is to be done outside in the state `s`.
pub open spec fn action_of(s: StateView) -> ActionView {
    match s {
        StateView::Init => ActionView::WriteQuery,
        StateView::QueryWritten => ActionView::InvokeTool,
        StateView::AwaitingListing => ActionView::ListReplyDirectory,
        StateView::AwaitingIndex { name, entries } => ActionView::ReadDocument(seq![name]),
        StateView::AwaitingCodemodel { location } => ActionView::ReadDocument(
            segments_of(location),
        ),
        StateView::AwaitingTarget { references, next } => ActionView::ReadDocument(
            seq![references[next]],
        ),
        StateView::TargetParsed { .. } => ActionView::Proceed,
        StateView::NotFound => ActionView::ProbeRegistry,
        StateView::FallbackProbed { .. } => ActionView::Proceed,
        StateView::Found { result } => ActionView::Emit(result.emitted()),
        StateView::DirectivesEmitted => ActionView::Finish,
        StateView::Unresolved => ActionView::Abort(
            DiscoveryError::LibraryUnresolved,
            unresolved_text(),
        ),
        StateView::Failed { error, diagnostic } => ActionView::Abort(error, diagnostic),
    }
}

/// The state reached from `s` when the documents `docs` are read one after the other.
pub open spec fn after_documents(
    s: StateView,
    docs: Seq<JsonView>,
    wanted: Seq<char>,
    windows: bool,
) -> StateView
    decreases docs.len(),
{
    if docs.len() == 0 {
        s
    } else {
        after_documents(
            next_state(s, EventView::DocumentRead(DocumentView::Parsed(docs[0])), wanted, windows),
            docs.drop_first(),
            wanted,
            windows,
        )
    }
}

/// A step leaves a state that holds what its stage needs in such a state.
pub proof fn lemma_step_keeps_wf(s: StateView, e: EventView, wanted: Seq<char>, windows: bool)
    requires
        state_wf(s),
    ensures
        state_wf(next_state(s, e, wanted, windows)),
{
    let empty = DiscoveryView::empty();
    assert(crate::result::keys_of(empty.defines) =~= Seq::empty());
    assert(crate::result::keys_of(empty.libraries) =~= Seq::empty());
    match s {
        StateView::AwaitingTarget { references, next } => {
            match e {
                EventView::DocumentRead(DocumentView::Parsed(j)) => {
                    if names_wanted(j, wanted) {
                        lemma_extraction_found(decoded_target(j).unwrap(), windows, true);
                    }
                },
                _ => {},
            }
        },
        StateView::FallbackProbed { report } => {
            match report {
                Some(r) => {
                    crate::fallback::lemma_probed_is_found(r);
                },
                None => {},
            }
        },
        _ => {},
    }
}

/// The stages are passed in order, with no way back: a step never leads to an earlier
/// stage, and a state at which a discovery ends is left by no event.
pub proof fn lemma_stages_advance(s: StateView, e: EventView, wanted: Seq<char>, windows: bool)
    ensures
        rank(stage_of(next_state(s, e, wanted, windows))) >= rank(stage_of(s)),
        is_final(stage_of(s)) ==> next_state(s, e, wanted, windows) == s,
{
}

/// The one error that does not end a discovery is that of a target search that left
/// the library unfound: a state stands for an error that ends the discovery exactly
/// if no event leads out of it.
pub proof fn lemma_only_terminal_errors_end(s: StateView)
    requires
        state_wf(s),
    ensures
        error_of(s) matches Some(error) ==> (is_terminal_error(error) <==> is_final(stage_of(s))),
        is_final(stage_of(s)) && !(s is DirectivesEmitted) ==> error_of(s) is Some,
{
}

/// The registry is probed after a target search that left the library unfound, and
/// after nothing else. A document that could not be read or parsed never leads there:
/// it ends the discovery, unless the state awaits no document and ignores it.
pub proof fn lemma_probe_follows_not_found_alone(
    s: StateView,
    e: EventView,
    wanted: Seq<char>,
    windows: bool,
)
    requires
        state_wf(s),
    ensures
        action_of(next_state(s, e, wanted, windows)) is ProbeRegistry <==> (s is NotFound && !(e
            is Probed)) || (s matches StateView::TargetParsed { result } && !result.found && e
            is Proceeded),
        e matches EventView::DocumentRead(doc) && !(doc is Parsed) ==> next_state(
            s,
            e,
            wanted,
            windows,
        ) is Failed || next_state(s, e, wanted, windows) == s,
        error_of(next_state(s, e, wanted, windows)) == Some(DiscoveryError::TargetNotFound)
            <==> action_of(next_state(s, e, wanted, windows)) is ProbeRegistry,
{
}

/// Where none of the target documents that are left describes a target of the name
/// looked for, the search ends with nothing found, the library counts as not found,
/// and the registry is probed next.
pub proof fn lemma_search_without_match_finds_nothing(
    references: Seq<Seq<char>>,
    next: int,
    docs: Seq<JsonView>,
    wanted: Seq<char>,
    windows: bool,
)
    requires
        0 <= next < references.len(),
        docs.len() == references.len() - next,
        forall|i: int| 0 <= i < docs.len() ==> !names_wanted(#[trigger] docs[i], wanted),
    ensures
        after_documents(StateView::AwaitingTarget { references, next }, docs, wanted, windows)
            == (StateView::TargetParsed { result: DiscoveryView::empty() }),
        next_state(
            StateView::TargetParsed { result: DiscoveryView::empty() },
            EventView::Proceeded,
            wanted,
            windows,
        ) == StateView::NotFound,
        action_of(StateView::NotFound) == ActionView::ProbeRegistry,
    decreases docs.len(),
{
    let start = StateView::AwaitingTarget { references, next };
    let step = next_state(
        start,
        EventView::DocumentRead(DocumentView::Parsed(docs[0])),
        wanted,
        windows,
    );
    let rest = docs.drop_first();
    assert(!names_wanted(docs[0], wanted));
    if next + 1 < references.len() {
        assert forall|i: int| 0 <= i < rest.len() implies !names_wanted(
            #[trigger] rest[i],
            wanted,
        ) by {
            assert(rest[i] == docs[i + 1]);
        }
        lemma_search_without_match_finds_nothing(references, next + 1, rest, wanted, windows);
    } else {
        assert(rest.len() == 0);
        assert(after_documents(step, rest, wanted, windows) == step);
    }
}

/// The first target document, in listed order, that describes a target of the name
/// looked for ends the search, with what that target gives; documents after it are
/// not asked for.
pub proof fn lemma_first_match_wins(
    references: Seq<Seq<char>>,
    next: int,
    docs: Seq<JsonView>,
    at: int,
    wanted: Seq<char>,
    windows: bool,
)
    requires
        0 <= next,
        0 <= at < docs.len(),
        next + at < references.len(),
        names_wanted(docs[at], wanted),
        forall|k: int| 0 <= k < at ==> !names_wanted(#[trigger] docs[k], wanted),
    ensures
        after_documents(
            StateView::AwaitingTarget { references, next },
            docs.take(at + 1),
            wanted,
            windows,
        ) == (StateView::TargetParsed {
            result: extraction(decoded_target(docs[at]).unwrap(), windows),
        }),
        action_of(
            after_documents(
                StateView::AwaitingTarget { references, next },
                docs.take(at + 1),
                wanted,
                windows,
            ),
        ) == ActionView::Proceed,
    decreases at,
{
    let start = StateView::AwaitingTarget { references, next };
    let fed = docs.take(at + 1);
    let step = next_state(
        start,
        EventView::DocumentRead(DocumentView::Parsed(fed[0])),
        wanted,
        windows,
    );
    assert(fed[0] == docs[0]);
    if at == 0 {
        assert(fed.drop_first().len() == 0);
        assert(after_documents(step, fed.drop_first(), wanted, windows) == step);
    } else {
        assert(!names_wanted(docs[0], wanted));
        let rest = docs.drop_first();
        assert(fed.drop_first() =~= rest.take(at));
        assert(rest[at - 1] == docs[at]);
        assert forall|k: int| 0 <= k < at - 1 implies !names_wanted(#[trigger] rest[k], wanted) by {
            assert(rest[k] == docs[k + 1]);
        }
        lemma_first_match_wins(references, next + 1, rest, at - 1, wanted, windows);
    }
}

/// Reads a document from the text of a file; `None` stands for a file that could not
/// be read.
pub fn read_document(text: Option<&str>) -> (r: Document)
    ensures
        r@ == document_for(
            match text {
                Some(t) => Some(t@),
                None => None,
            },
        ),
{
    match text {
        None => Document::Unreadable,
        Some(t) => match parse(t) {
            Some(j) => Document::Parsed(j),
            None => Document::Malformed(content_preview(t)),
        },
    }
}

/// The target that `doc` describes, if it is of the name `wanted`.
pub fn matching_target(doc: &Json, wanted: &str) -> (r: Option<TargetDescriptor>)
    ensures
        match r {
            Some(t) => names_wanted(doc@, wanted@) && decoded_target(doc@) == Some(t@),
            None => !names_wanted(doc@, wanted@),
        },
{
    match decode_target(doc) {
        Some(t) => {
            let name = owned(wanted);
            if same_text(&t.name, &name) {
                Some(t)
            } else {
                None
            }
        },
        None => None,
    }
}

enum State {
    Init,
    QueryWritten,
    AwaitingListing,
    AwaitingIndex { name: String, entries: Vec<DirectoryEntry> },
    AwaitingCodemodel { location: ReplyLocation },
    AwaitingTarget { references: Vec<String>, next: usize },
    TargetParsed { result: DiscoveryResult },
    NotFound,
    FallbackProbed { report: Option<ProbeReport> },
    Found { result: DiscoveryResult },
    DirectivesEmitted,
    Unresolved,
    Failed { error: DiscoveryError, diagnostic: String },
}

impl State {
    spec fn value(&self) -> StateView {
        match self {
            State::Init => StateView::Init,
            State::QueryWritten => StateView::QueryWritten,
            State::AwaitingListing => StateView::AwaitingListing,
            State::AwaitingIndex { name, entries } => StateView::AwaitingIndex {
                name: name@,
                entries: entry_views(entries@),
            },
            State::AwaitingCodemodel { location } => StateView::AwaitingCodemodel {
                location: location@,
            },
            State::AwaitingTarget { references, next } => StateView::AwaitingTarget {
                references: texts(references@),
                next: *next as int,
            },
            State::TargetParsed { result } => StateView::TargetParsed { result: result@ },
            State::NotFound => StateView::NotFound,
            State::FallbackProbed { report } => StateView::FallbackProbed {
                report: match report {
                    Some(r) => Some(r@),
                    None => None,
                },
            },
            State::Found { result } => StateView::Found { result: result@ },
            State::DirectivesEmitted => StateView::DirectivesEmitted,
            State::Unresolved => StateView::Unresolved,
            State::Failed { error, diagnostic } => StateView::Failed {
                error: *error,
                diagnostic: diagnostic@,
            },
        }
    }

    spec fn sound(&self) -> bool {
        &&& state_wf(self.value())
        &&& match self {
            State::TargetParsed { result } => result.wf(),
            State::Found { result } => result.wf(),
            _ => true,
        }
    }
}

/// A discovery under way.
pub struct Pipeline {
    state: State,
}

impl View for Pipeline {
    type V = StateView;

    closed spec fn view(&self) -> StateView {
        self.state.value()
    }
}

impl Pipeline {
    #[verifier::type_invariant]
    closed spec fn sound(&self) -> bool {
        self.state.sound()
    }

    /// A discovery at its start.
    pub fn new() -> (r: Pipeline)
        ensures
            r@ == StateView::Init,
    {
        Pipeline { state: State::Init }
    }

    /// How far the discovery has come.
    pub fn stage(&self) -> (r: Stage)
        ensures
            r == stage_of(self@),
            state_wf(self@),
    {
        proof {
            use_type_invariant(self);
        }
        match &self.state {
            State::Init => Stage::Init,
            State::QueryWritten => Stage::QueryWritten,
            State::AwaitingListing => Stage::ToolInvoked,
            State::AwaitingIndex { .. } => Stage::ToolInvoked,
            State::AwaitingCodemodel { .. } => Stage::ReplyLocated,
            State::AwaitingTarget { .. } => Stage::ReplyLocated,
            State::TargetParsed { .. } => Stage::TargetParsed,
            State::NotFound => Stage::NotFound,
            State::FallbackProbed { .. } => Stage::FallbackProbed,
            State::Found { .. } => Stage::Found,
            State::DirectivesEmitted => Stage::DirectivesEmitted,
            State::Unresolved => Stage::Unresolved,
            State::Failed { .. } => Stage::Failed,
        }
    }

    /// The error that the state stands for, if it stands for one.
    pub fn error(&self) -> (r: Option<DiscoveryError>)
        ensures
            r == error_of(self@),
    {
        match &self.state {
            State::NotFound => Some(DiscoveryError::TargetNotFound),
            State::Unresolved => Some(DiscoveryError::LibraryUnresolved),
            State::Failed { error, diagnostic } => Some(*error),
            _ => None,
        }
    }

    /// The result of the discovery, once the library is found.
    pub fn result(&self) -> (r: Option<&DiscoveryResult>)
        ensures
            match r {
                Some(result) => self@ == (StateView::Found { result: result@ }) && result.wf()
                    && result@.found,
                None => !(self@ is Found),
            },
    {
        proof {
            use_type_invariant(self);
        }
        match &self.state {
            State::Found { result } => Some(result),
            _ => None,
        }
    }

    /// What is to be done outside next.
    pub fn next_action(&self) -> (r: Action)
        ensures
            r@ == action_of(self@),
            state_wf(self@),
    {
        proof {
            use_type_invariant(self);
        }
        match &self.state {
            State::Init => Action::WriteQuery,
            State::QueryWritten => Action::InvokeTool,
            State::AwaitingListing => Action::ListReplyDirectory,
            State::AwaitingIndex { name, entries } => {
                let mut path: Vec<String> = Vec::new();
                path.push(name.clone());
                proof {
                    assert(texts(path@) =~= seq![name@]);
                }
                Action::ReadDocument(path)
            },
            State::AwaitingCodemodel { location } => Action::ReadDocument(segments(location)),
            State::AwaitingTarget { references, next } => {
                let mut path: Vec<String> = Vec::new();
                path.push(references[*next].clone());
                proof {
                    assert(texts(path@) =~= seq![texts(references@)[*next as int]]);
                }
                Action::ReadDocument(path)
            },
            State::TargetParsed { .. } => Action::Proceed,
            State::NotFound => Action::ProbeRegistry,
            State::FallbackProbed { .. } => Action::Proceed,
            State::Found { result } => Action::Emit(result.emit()),
            State::DirectivesEmitted => Action::Finish,
            State::Unresolved => Action::Abort(
                DiscoveryError::LibraryUnresolved,
                unresolved_message(),
            ),
            State::Failed { error, diagnostic } => Action::Abort(*error, diagnostic.clone()),
        }
    }

    /// Takes the event `event` and moves on. `wanted` is the name of the target looked
    /// for, `is_windows` says whether the build is for Windows.
    pub fn step(self, event: Event, wanted: &str, is_windows: bool) -> (r: Pipeline)
        ensures
            r@ == next_state(self@, event@, wanted@, is_windows),
            state_wf(r@),
    {
        proof {
            use_type_invariant(&self);
            lemma_step_keeps_wf(self@, event@, wanted@, is_windows);
        }
        let state = match self.state {
            State::Init => match event {
                Event::QueryWritten => State::QueryWritten,
                _ => State::Init,
            },
            State::QueryWritten => match event {
                Event::ToolExited { success, output } => if success {
                    State::AwaitingListing
                } else {
                    State::Failed {
                        error: DiscoveryError::ToolInvocationFailed,
                        diagnostic: output,
                    }
                },
                _ => State::QueryWritten,
            },
            State::AwaitingListing => match event {
                Event::ReplyListed(listing) => on_listing(listing),
                _ => State::AwaitingListing,
            },
            State::AwaitingIndex { name, entries } => match event {
                Event::DocumentRead(doc) => on_index(entries, doc),
                _ => State::AwaitingIndex { name, entries },
            },
            State::AwaitingCodemodel { location } => match event {
                Event::DocumentRead(doc) => on_codemodel(doc),
                _ => State::AwaitingCodemodel { location },
            },
            State::AwaitingTarget { references, next } => match event {
                Event::DocumentRead(doc) => on_target(references, next, doc, wanted, is_windows),
                _ => State::AwaitingTarget { references, next },
            },
            State::TargetParsed { result } => match event {
                Event::Proceeded => if result.found() {
                    State::Found { result }
                } else {
                    State::NotFound
                },
                _ => State::TargetParsed { result },
            },
            State::NotFound => match event {
                Event::Probed(report) => State::FallbackProbed { report },
                _ => State::NotFound,
            },
            State::FallbackProbed { report } => match event {
                Event::Proceeded => match report {
                    Some(r) => State::Found { result: from_probe(&r) },
                    None => State::Unresolved,
                },
                _ => State::FallbackProbed { report },
            },
            State::Found { result } => match event {
                Event::Emitted => State::DirectivesEmitted,
                _ => State::Found { result },
            },
            State::DirectivesEmitted => State::DirectivesEmitted,
            State::Unresolved => State::Unresolved,
            State::Failed { error, diagnostic } => State::Failed { error, diagnostic },
        };
        Pipeline { state }
    }
}

fn on_listing(listing: Option<Vec<DirectoryEntry>>) -> (r: State)
    ensures
        r.sound(),
        r.value() == after_listing(
            match listing {
                Some(entries) => Some(entry_views(entries@)),
                None => None,
            },
        ),
{
    match listing {
        None => State::Failed {
            error: DiscoveryError::ReplyDirectoryMissing,
            diagnostic: reply_directory_missing_message(),
        },
        Some(entries) => match locate_codemodel(&entries) {
            Some(location) => State::AwaitingCodemodel { location },
            None => match locate_index(&entries) {
                Some(name) => State::AwaitingIndex { name, entries },
                None => State::Failed {
                    error: DiscoveryError::ReplyDocumentMissing,
                    diagnostic: listing_message(&entries),
                },
            },
        },
    }
}

fn on_index(entries: Vec<DirectoryEntry>, doc: Document) -> (r: State)
    ensures
        r.sound(),
        r.value() == after_index(entry_views(entries@), doc@),
{
    let file = match &doc {
        Document::Parsed(index) => codemodel_from_index(index),
        _ => None,
    };
    match file {
        Some(file) => State::AwaitingCodemodel { location: ReplyLocation::File(file) },
        None => State::Failed {
            error: DiscoveryError::ReplyDocumentMissing,
            diagnostic: listing_message(&entries),
        },
    }
}

fn on_broken(doc: Document) -> (r: State)
    ensures
        r.sound(),
        r.value() == after_broken(doc@),
{
    match doc {
        Document::Malformed(preview) => State::Failed {
            error: DiscoveryError::MalformedDocument,
            diagnostic: malformed_message(preview.as_str()),
        },
        _ => State::Failed {
            error: DiscoveryError::ReplyDocumentMissing,
            diagnostic: unreadable_message(),
        },
    }
}

fn on_codemodel(doc: Document) -> (r: State)
    ensures
        r.sound(),
        r.value() == after_codemodel(doc@),
{
    match doc {
        Document::Parsed(codemodel) => match decode_codemodel(&codemodel) {
            Some(model) => if model.target_files.len() == 0 {
                nothing_found()
            } else {
                State::AwaitingTarget { references: model.target_files, next: 0 }
            },
            None => State::Failed {
                error: DiscoveryError::MalformedDocument,
                diagnostic: incomplete_message(),
            },
        },
        other => on_broken(other),
    }
}

fn nothing_found() -> (r: State)
    ensures
        r.sound(),
        r.value() == (StateView::TargetParsed { result: DiscoveryView::empty() }),
{
    let result = DiscoveryResult::new();
    proof {
        result.lemma_wf();
    }
    State::TargetParsed { result }
}

fn on_target(
    references: Vec<String>,
    next: usize,
    doc: Document,
    wanted: &str,
    is_windows: bool,
) -> (r: State)
    requires
        next < references.len(),
    ensures
        r.sound(),
        r.value() == after_target(texts(references@), next as int, doc@, wanted@, is_windows),
{
    match doc {
        Document::Parsed(j) => match matching_target(&j, wanted) {
            Some(target) => {
                let result = extract(&target, is_windows);
                proof {
                    result.lemma_wf();
                }
                State::TargetParsed { result }
            },
            None => if next + 1 < references.len() {
                State::AwaitingTarget { references, next: next + 1 }
            } else {
                nothing_found()
            },
        },
        other => on_broken(other),
    }
}

} // verus!
