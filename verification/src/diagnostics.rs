//! The ways in which a discovery fails, and the texts that tell a person why.

use crate::reply::{entry_names, entry_views, DirectoryEntry};
use crate::text::{owned, slice_of};
use vstd::prelude::*;

verus! {

/// Why a discovery did not go through.
#[derive(Debug, Clone, Copy, PartialEq, Eq, Structural)]
pub enum DiscoveryError {
    /// The configuration tool ended with an error status.
    ToolInvocationFailed,
    /// The tool left no reply directory.
    ReplyDirectoryMissing,
    /// The reply holds no document that could be used.
    ReplyDocumentMissing,
    /// A document of the reply is not valid JSON, or lacks what it must hold.
    MalformedDocument,
    /// The object model names no target of the name asked for.
    TargetNotFound,
    /// Neither the structured discovery nor the registry probe found the library.
    LibraryUnresolved,
}

/// The greatest number of characters of a document that a preview shows.
pub const PREVIEW_LIMIT: usize = 100;

/// Every error ends the discovery but a target that was not found, after which the
/// registry is probed.
pub open spec fn is_terminal_error(e: DiscoveryError) -> bool {
    e != DiscoveryError::TargetNotFound
}

/// The start of a document, for a diagnostic: the document itself where it is short,
/// else its first characters and an ellipsis.
pub open spec fn preview_of(text: Seq<char>) -> Seq<char> {
    if text.len() > PREVIEW_LIMIT {
        text.subrange(0, PREVIEW_LIMIT as int) + "..."@
    } else {
        text
    }
}

/// The texts of `names`, with a comma and a blank between any two.
pub open spec fn joined(names: Seq<Seq<char>>) -> Seq<char>
    decreases names.len(),
{
    if names.len() == 0 {
        Seq::empty()
    } else if names.len() == 1 {
        names[0]
    } else {
        joined(names.drop_last()) + ", "@ + names.last()
    }
}

/// The diagnostic for a tool that left no reply directory.
pub open spec fn reply_directory_missing_text() -> Seq<char> {
    "CMake file-api reply directory not found. CMake might have failed to run properly."@
}

/// The diagnostic for a reply without an object model: it lists every name present in
/// the reply directory.
pub open spec fn listing_text(names: Seq<Seq<char>>) -> Seq<char> {
    "Failed to find codemodel file in CMake file-api reply directory. Available files: "@
        + joined(names)
}

/// The diagnostic for a document that could not be read.
pub open spec fn unreadable_text() -> Seq<char> {
    "Failed to read a document of the CMake file-api reply."@
}

/// The diagnostic for a document that is not valid JSON: it shows how the document
/// starts.
pub open spec fn malformed_text(preview: Seq<char>) -> Seq<char> {
    "Failed to parse a JSON document of the CMake file-api reply. Content preview: "@ + preview
}

/// The diagnostic for an object model that lacks its configurations or the files of
/// its targets.
pub open spec fn incomplete_text() -> Seq<char> {
    "The codemodel document names no configuration, no targets, or a target without a file."@
}

/// The diagnostic for a library that neither channel found: what to do about it.
pub open spec fn unresolved_text() -> Seq<char> {
    "QuEST not found. Please install QuEST and ensure it can be found by: 1. setting the QUEST_DIR or QUEST_ROOT environment variable; 2. installing to a standard system location; 3. using pkg-config. For installation instructions, visit https://github.com/QuEST-Kit/QuEST"@
}

impl DiscoveryError {
    /// Whether the error ends the discovery.
    pub fn is_terminal(&self) -> (r: bool)
        ensures
            r == is_terminal_error(*self),
    {
        match self {
            DiscoveryError::TargetNotFound => false,
            _ => true,
        }
    }
}

/// The start of `text`, for a diagnostic.
pub fn content_preview(text: &str) -> (r: String)
    ensures
        r@ == preview_of(text@),
{
    let n = text.unicode_len();
    if n > PREVIEW_LIMIT {
        let mut out = slice_of(text, 0, PREVIEW_LIMIT);
        out.append("...");
        out
    } else {
        owned(text)
    }
}

/// The names of `entries`, with a comma and a blank between any two.
pub fn join_names(entries: &Vec<DirectoryEntry>) -> (r: String)
    ensures
        r@ == joined(entry_names(entry_views(entries@))),
{
    let ghost names = entry_names(entry_views(entries@));
    let mut out = String::new();
    let mut i: usize = 0;
    while i < entries.len()
        invariant
            i <= entries.len(),
            names == entry_names(entry_views(entries@)),
            out@ == joined(names.take(i as int)),
        decreases entries.len() - i,
    {
        proof {
            assert(names.take(i + 1).drop_last() =~= names.take(i as int));
            assert(names.take(i + 1).last() == entries@[i as int].name@);
            assert(names.take(i + 1)[0] == names[0]);
        }
        if i > 0 {
            out.append(", ");
        }
        out.append(entries[i].name.as_str());
        i = i + 1;
    }
    proof {
        assert(names.take(entries.len() as int) =~= names);
    }
    out
}

/// The diagnostic for a reply without an object model.
pub fn listing_message(entries: &Vec<DirectoryEntry>) -> (r: String)
    ensures
        r@ == listing_text(entry_names(entry_views(entries@))),
{
    let mut out = owned(
        "Failed to find codemodel file in CMake file-api reply directory. Available files: ",
    );
    let names = join_names(entries);
    out.append(names.as_str());
    out
}

/// The diagnostic for a tool that left no reply directory.
pub fn reply_directory_missing_message() -> (r: String)
    ensures
        r@ == reply_directory_missing_text(),
{
    owned("CMake file-api reply directory not found. CMake might have failed to run properly.")
}

/// The diagnostic for a document that could not be read.
pub fn unreadable_message() -> (r: String)
    ensures
        r@ == unreadable_text(),
{
    owned("Failed to read a document of the CMake file-api reply.")
}

/// The diagnostic for an object model that lacks its configurations or the files of
/// its targets.
pub fn incomplete_message() -> (r: String)
    ensures
        r@ == incomplete_text(),
{
    owned("The codemodel document names no configuration, no targets, or a target without a file.")
}

/// The diagnostic for a library that neither channel found.
pub fn unresolved_message() -> (r: String)
    ensures
        r@ == unresolved_text(),
{
    owned(
        "QuEST not found. Please install QuEST and ensure it can be found by: 1. setting the QUEST_DIR or QUEST_ROOT environment variable; 2. installing to a standard system location; 3. using pkg-config. For installation instructions, visit https://github.com/QuEST-Kit/QuEST",
    )
}

/// The diagnostic for a document that is not valid JSON and starts as `preview` shows.
pub fn malformed_message(preview: &str) -> (r: String)
    ensures
        r@ == malformed_text(preview@),
{
    let mut out = owned(
        "Failed to parse a JSON document of the CMake file-api reply. Content preview: ",
    );
    out.append(preview);
    out
}

} // verus!
