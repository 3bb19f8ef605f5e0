//! Finding the object-model document among the entries of a reply directory, and the
//! reading of the target references that it holds.

use crate::json::{collect_texts, json_views, texts_under, Json, JsonView};
use crate::text::{
    chars_of,
    ends_with,
    has_prefix,
    has_suffix,
    owned,
    same_text,
    starts_with,
    texts,
};
use vstd::prelude::*;

verus! {

/// What kind of thing a directory entry is.
#[derive(Debug, Clone, Copy, PartialEq, Eq, Structural)]
pub enum EntryKind {
    File,
    Directory,
    /// Neither a file nor a directory, such as a link that leads nowhere.
    Other,
}

/// One entry of the reply directory.
#[derive(Debug, Clone, PartialEq, Eq)]
pub struct DirectoryEntry {
    pub name: String,
    pub kind: EntryKind,
}

/// Where a document lies, relative to the reply directory.
#[derive(Debug, Clone, PartialEq, Eq)]
pub enum ReplyLocation {
    /// The document is the file of this name, or path, in the reply directory.
    File(String),
    /// The document is the file `codemodel-v2.json` in the directory of this name.
    Nested(String),
}

/// The object model, as far as a discovery reads it.
#[derive(Debug, Clone, PartialEq, Eq)]
pub struct CodemodelDocument {
    /// The files of the target documents of the first configuration, in listed order.
    pub target_files: Vec<String>,
}

/// The mathematical value of a `DirectoryEntry`.
pub struct EntryView {
    pub name: Seq<char>,
    pub kind: EntryKind,
}

/// The mathematical value of a `ReplyLocation`.
pub enum LocationView {
    File(Seq<char>),
    Nested(Seq<char>),
}

impl View for DirectoryEntry {
    type V = EntryView;

    open spec fn view(&self) -> EntryView {
        EntryView { name: self.name@, kind: self.kind }
    }
}

impl View for ReplyLocation {
    type V = LocationView;

    open spec fn view(&self) -> LocationView {
        match self {
            ReplyLocation::File(name) => LocationView::File(name@),
            ReplyLocation::Nested(name) => LocationView::Nested(name@),
        }
    }
}

/// The values of a sequence of directory entries, in order.
pub open spec fn entry_views(v: Seq<DirectoryEntry>) -> Seq<EntryView> {
    Seq::new(v.len(), |i: int| v[i]@)
}

/// The names of a sequence of directory entries, in order.
pub open spec fn entry_names(v: Seq<EntryView>) -> Seq<Seq<char>> {
    Seq::new(v.len(), |i: int| v[i].name)
}

/// The path of the query artifact: an empty file of the reserved name `codemodel-v2`
/// in the query directory of the tool's file interface.
pub open spec fn query_path() -> Seq<Seq<char>> {
    seq![".cmake"@, "api"@, "v1"@, "query"@, "codemodel-v2"@]
}

/// The path of the reply directory of the tool's file interface.
pub open spec fn reply_path() -> Seq<Seq<char>> {
    seq![".cmake"@, "api"@, "v1"@, "reply"@]
}

/// The token that opens the name of the object-model document.
pub open spec fn codemodel_prefix() -> Seq<char> {
    "codemodel-v2"@
}

/// The name of the object-model document inside a directory of its own.
pub open spec fn nested_file_name() -> Seq<char> {
    "codemodel-v2.json"@
}

/// The entry can hold the object model: its name opens with the prefix token, and it
/// is a directory, or a file whose name ends in `.json`.
pub open spec fn is_codemodel_entry(e: EntryView) -> bool {
    starts_with(e.name, codemodel_prefix()) && (e.kind == EntryKind::Directory || (e.kind
        == EntryKind::File && ends_with(e.name, ".json"@)))
}

/// Where the object model lies for an entry that can hold it.
pub open spec fn location_of(e: EntryView) -> LocationView {
    if e.kind == EntryKind::Directory {
        LocationView::Nested(e.name)
    } else {
        LocationView::File(e.name)
    }
}

/// Where the object model lies: at the first entry, in listed order, that can hold it.
pub open spec fn located(entries: Seq<EntryView>) -> Option<LocationView>
    decreases entries.len(),
{
    if entries.len() == 0 {
        None
    } else if is_codemodel_entry(entries[0]) {
        Some(location_of(entries[0]))
    } else {
        located(entries.drop_first())
    }
}

/// The path of a location, segment by segment, below the reply directory.
pub open spec fn segments_of(location: LocationView) -> Seq<Seq<char>> {
    match location {
        LocationView::File(name) => seq![name],
        LocationView::Nested(name) => seq![name, nested_file_name()],
    }
}

/// The entry can be the index document: its name opens with `index-` and ends in
/// `.json`.
pub open spec fn is_index_entry(e: EntryView) -> bool {
    starts_with(e.name, "index-"@) && ends_with(e.name, ".json"@)
}

/// The name of the index document: that of the first entry that can be one.
pub open spec fn index_name(entries: Seq<EntryView>) -> Option<Seq<char>>
    decreases entries.len(),
{
    if entries.len() == 0 {
        None
    } else if is_index_entry(entries[0]) {
        Some(entries[0].name)
    } else {
        index_name(entries.drop_first())
    }
}

/// The kind under which an index document lists the object model.
pub open spec fn codemodel_kind() -> Seq<char> {
    "codemodel"@
}

/// The file that one object of an index document names for the object model, if the
/// object is of that kind and names a file.
pub open spec fn codemodel_file_of(object: JsonView) -> Option<Seq<char>> {
    if object.text_at("kind"@) == Some(codemodel_kind()) {
        object.text_at("jsonFile"@)
    } else {
        None
    }
}

/// The file that the first object of `objects` to name one names for the object model.
pub open spec fn first_codemodel_file(objects: Seq<JsonView>) -> Option<Seq<char>>
    decreases objects.len(),
{
    if objects.len() == 0 {
        None
    } else {
        match codemodel_file_of(objects[0]) {
            Some(file) => Some(file),
            None => first_codemodel_file(objects.drop_first()),
        }
    }
}

/// The file that an index document names for the object model: that of the first
/// entry of its `objects` whose `kind` is that of the object model and whose `jsonFile`
/// is a text.
pub open spec fn codemodel_in_index(index: JsonView) -> Option<Seq<char>> {
    first_codemodel_file(index.items_at("objects"@))
}

/// The files of the target documents that an object model refers to: the `jsonFile`
/// texts of the `targets` of its first configuration, in listed order. A document
/// without a first configuration, without an array of targets in it, or with a target
/// that names no file, gives none.
pub open spec fn target_references(codemodel: JsonView) -> Option<Seq<Seq<char>>> {
    let configurations = codemodel.items_at("configurations"@);
    if configurations.len() == 0 {
        None
    } else {
        match configurations[0].member("targets"@) {
            Some(JsonView::Array(targets)) => {
                let files = texts_under(targets, "jsonFile"@);
                if files.len() == targets.len() {
                    Some(files)
                } else {
                    None
                }
            },
            _ => None,
        }
    }
}

/// The object model is found at the first entry that can hold it, whatever stands
/// before or after that entry; a listing without such an entry gives no location.
pub proof fn lemma_located_is_first(entries: Seq<EntryView>, at: int)
    requires
        0 <= at <= entries.len(),
        at < entries.len() ==> is_codemodel_entry(entries[at]),
        forall|k: int| 0 <= k < at ==> !is_codemodel_entry(#[trigger] entries[k]),
    ensures
        at < entries.len() ==> located(entries) == Some(location_of(entries[at])),
        at == entries.len() ==> located(entries) is None,
    decreases entries.len(),
{
    if entries.len() > 0 && at > 0 {
        let rest = entries.drop_first();
        assert(!is_codemodel_entry(entries[0]));
        assert forall|k: int| 0 <= k < at - 1 implies !is_codemodel_entry(#[trigger] rest[k]) by {
            assert(rest[k] == entries[k + 1]);
        }
        if at < entries.len() {
            assert(rest[at - 1] == entries[at]);
        }
        lemma_located_is_first(rest, at - 1);
    }
}

/// The object model is found in either layout. Presented as a bare file, whose name
/// opens with `codemodel-v2` and ends in `.json`, it is found as that file. Presented
/// as a directory whose name opens with `codemodel-v2`, it is found as the file
/// `codemodel-v2.json` inside that directory. Both hold wherever the entry stands
/// among entries that cannot hold the object model.
pub proof fn lemma_both_layouts_are_found(entries: Seq<EntryView>, at: int)
    requires
        0 <= at < entries.len(),
        starts_with(entries[at].name, codemodel_prefix()),
        entries[at].kind == EntryKind::Directory || (entries[at].kind == EntryKind::File
            && ends_with(entries[at].name, ".json"@)),
        forall|k: int| 0 <= k < at ==> !is_codemodel_entry(#[trigger] entries[k]),
    ensures
        entries[at].kind == EntryKind::File ==> located(entries) == Some(
            LocationView::File(entries[at].name),
        ) && segments_of(located(entries).unwrap()) == seq![entries[at].name],
        entries[at].kind == EntryKind::Directory ==> located(entries) == Some(
            LocationView::Nested(entries[at].name),
        ) && segments_of(located(entries).unwrap()) == seq![
            entries[at].name,
            nested_file_name(),
        ],
{
    lemma_located_is_first(entries, at);
}

/// Whether the entry can hold the object model.
pub fn holds_codemodel(entry: &DirectoryEntry) -> (r: bool)
    ensures
        r == is_codemodel_entry(entry@),
{
    let chars = chars_of(entry.name.as_str());
    if !has_prefix(&chars, "codemodel-v2") {
        return false;
    }
    match entry.kind {
        EntryKind::Directory => true,
        EntryKind::File => has_suffix(&chars, ".json"),
        EntryKind::Other => false,
    }
}

/// Where the object model lies among `entries`, if any of them can hold it.
pub fn locate_codemodel(entries: &Vec<DirectoryEntry>) -> (r: Option<ReplyLocation>)
    ensures
        match r {
            Some(location) => located(entry_views(entries@)) == Some(location@),
            None => located(entry_views(entries@)) is None,
        },
{
    let ghost all = entry_views(entries@);
    let mut i: usize = 0;
    while i < entries.len()
        invariant
            i <= entries.len(),
            all == entry_views(entries@),
            forall|k: int| 0 <= k < i ==> !is_codemodel_entry(#[trigger] all[k]),
        decreases entries.len() - i,
    {
        if holds_codemodel(&entries[i]) {
            proof {
                lemma_located_is_first(all, i as int);
            }
            let name = entries[i].name.clone();
            return Some(
                match entries[i].kind {
                    EntryKind::Directory => ReplyLocation::Nested(name),
                    _ => ReplyLocation::File(name),
                },
            );
        }
        i = i + 1;
    }
    proof {
        lemma_located_is_first(all, i as int);
    }
    None
}

/// The path of `location`, segment by segment, below the reply directory.
pub fn segments(location: &ReplyLocation) -> (r: Vec<String>)
    ensures
        texts(r@) == segments_of(location@),
{
    let mut out: Vec<String> = Vec::new();
    match location {
        ReplyLocation::File(name) => {
            out.push(name.clone());
        },
        ReplyLocation::Nested(name) => {
            out.push(name.clone());
            out.push(owned("codemodel-v2.json"));
        },
    }
    out
}

/// The name of the index document among `entries`, if there is one.
pub fn locate_index(entries: &Vec<DirectoryEntry>) -> (r: Option<String>)
    ensures
        match r {
            Some(name) => index_name(entry_views(entries@)) == Some(name@),
            None => index_name(entry_views(entries@)) is None,
        },
{
    let ghost all = entry_views(entries@);
    let mut i: usize = 0;
    proof {
        assert(all.skip(0) =~= all);
    }
    while i < entries.len()
        invariant
            i <= entries.len(),
            all == entry_views(entries@),
            index_name(all) == index_name(all.skip(i as int)),
        decreases entries.len() - i,
    {
        proof {
            assert(all.skip(i as int).drop_first() =~= all.skip(i + 1));
            assert(all.skip(i as int)[0] == all[i as int]);
        }
        let chars = chars_of(entries[i].name.as_str());
        if has_prefix(&chars, "index-") && has_suffix(&chars, ".json") {
            return Some(entries[i].name.clone());
        }
        i = i + 1;
    }
    None
}

/// The file that the index document `index` names for the object model, if it names
/// one.
pub fn codemodel_from_index(index: &Json) -> (r: Option<String>)
    ensures
        match r {
            Some(file) => codemodel_in_index(index@) == Some(file@),
            None => codemodel_in_index(index@) is None,
        },
{
    let objects = match index.items_at("objects") {
        Some(objects) => objects,
        None => {
            return None;
        },
    };
    let kind = owned("codemodel");
    let ghost all = json_views(objects@);
    let mut i: usize = 0;
    proof {
        assert(all.skip(0) =~= all);
    }
    while i < objects.len()
        invariant
            i <= objects.len(),
            kind@ == codemodel_kind(),
            all == json_views(objects@),
            codemodel_in_index(index@) == first_codemodel_file(all),
            first_codemodel_file(all) == first_codemodel_file(all.skip(i as int)),
        decreases objects.len() - i,
    {
        proof {
            assert(all.skip(i as int).drop_first() =~= all.skip(i + 1));
            assert(all.skip(i as int)[0] == all[i as int]);
            assert(all[i as int] == objects@[i as int]@);
        }
        let of_kind = match objects[i].text_at("kind") {
            Some(k) => same_text(k, &kind),
            None => false,
        };
        if of_kind {
            match objects[i].text_at("jsonFile") {
                Some(file) => {
                    return Some(file.clone());
                },
                None => {},
            }
        }
        i = i + 1;
    }
    None
}

/// The object model that the document `codemodel` holds; `None` where the document
/// lacks what an object model holds.
pub fn decode_codemodel(codemodel: &Json) -> (r: Option<CodemodelDocument>)
    ensures
        match r {
            Some(model) => target_references(codemodel@) == Some(texts(model.target_files@)),
            None => target_references(codemodel@) is None,
        },
{
    let configurations = match codemodel.items_at("configurations") {
        Some(configurations) => configurations,
        None => {
            return None;
        },
    };
    if configurations.len() == 0 {
        return None;
    }
    let targets = match configurations[0].items_at("targets") {
        Some(targets) => targets,
        None => {
            return None;
        },
    };
    let files = collect_texts(targets, "jsonFile");
    proof {
        assert(texts(files@).len() == files.len());
        assert(json_views(targets@).len() == targets.len());
    }
    if files.len() == targets.len() {
        Some(CodemodelDocument { target_files: files })
    } else {
        None
    }
}

/// Where the query artifact lies, segment by segment, below the directory in which
/// the configuration tool builds.
pub fn query_file_path() -> (r: Vec<String>)
    ensures
        texts(r@) == query_path(),
{
    let mut out: Vec<String> = Vec::new();
    out.push(owned(".cmake"));
    out.push(owned("api"));
    out.push(owned("v1"));
    out.push(owned("query"));
    out.push(owned("codemodel-v2"));
    out
}

/// Where the reply directory lies, segment by segment, below the directory in which
/// the configuration tool builds.
pub fn reply_directory_path() -> (r: Vec<String>)
    ensures
        texts(r@) == reply_path(),
{
    let mut out: Vec<String> = Vec::new();
    out.push(owned(".cmake"));
    out.push(owned("api"));
    out.push(owned("v1"));
    out.push(owned("reply"));
    out
}

} // verus!
