//! Classification of one raw library specifier, as a link section gives it, into
//! normalized link directives.
//!
//! The classification is an ordered decision table: `kind_of` names the first row whose
//! pattern the specifier meets, and `classify_core` gives the directives of that row.
//! The casing variants of the target library are a policy apart from the table.

use crate::directive::{
    directive_views,
    holds_directive,
    lemma_directive_views_push,
    ClassifiedDirective,
    DirectiveView,
};
use crate::text::{
    chars_of,
    ends_with,
    equals_ignoring_case,
    find_last,
    has_prefix,
    has_suffix,
    last_of,
    owned,
    same_ignoring_case,
    slice_of,
    starts_with,
};
use crate::unique::{lemma_push_if_missing, push_if_missing};
use vstd::prelude::*;

verus! {

/// The row of the decision table that a specifier falls under.
#[derive(Debug, Clone, Copy, PartialEq, Eq, Structural)]
pub enum SpecifierKind {
    /// The empty specifier, which names nothing.
    Empty,
    /// `-l` followed by a library name.
    LibraryFlag,
    /// `-L` followed by a search directory.
    SearchPathFlag,
    /// A file ending in `.a` or `.lib`.
    StaticArchive,
    /// A file ending in `.so`, `.dylib` or `.dll`.
    SharedLibrary,
    /// A path with a separator and none of the known endings.
    PathLike,
    /// A bare library name.
    PlainToken,
}

/// Whether the casing variants of the target library are added to a classification.
#[derive(Debug, Clone, Copy, PartialEq, Eq, Structural)]
pub struct CasingPolicy {
    pub emit_variants: bool,
}

/// `s` holds `/` or `\`.
pub open spec fn has_separator(s: Seq<char>) -> bool {
    last_of(s, '/', '\\') >= 0
}

/// The first row of the decision table whose pattern `s` meets.
pub open spec fn kind_of_text(s: Seq<char>) -> SpecifierKind {
    if s.len() == 0 {
        SpecifierKind::Empty
    } else if starts_with(s, "-l"@) {
        SpecifierKind::LibraryFlag
    } else if starts_with(s, "-L"@) {
        SpecifierKind::SearchPathFlag
    } else if ends_with(s, ".a"@) || ends_with(s, ".lib"@) {
        SpecifierKind::StaticArchive
    } else if ends_with(s, ".so"@) || ends_with(s, ".dylib"@) || ends_with(s, ".dll"@) {
        SpecifierKind::SharedLibrary
    } else if has_separator(s) {
        SpecifierKind::PathLike
    } else {
        SpecifierKind::PlainToken
    }
}

/// The directory part of a path: what stands before its last separator, or the
/// separator itself where it opens the path. A path without a separator has none.
pub open spec fn parent_of(s: Seq<char>) -> Option<Seq<char>> {
    let at = last_of(s, '/', '\\');
    if at < 0 {
        None
    } else if at == 0 {
        Some(s.subrange(0, 1))
    } else {
        Some(s.subrange(0, at))
    }
}

/// The file part of a path: what stands after its last separator.
pub open spec fn file_name_of(s: Seq<char>) -> Seq<char> {
    s.subrange(last_of(s, '/', '\\') + 1, s.len() as int)
}

/// A file name without its extension. A dot that opens the name starts no extension.
pub open spec fn stem_of(name: Seq<char>) -> Seq<char> {
    let dot = last_of(name, '.', '.');
    if dot > 0 {
        name.subrange(0, dot)
    } else {
        name
    }
}

/// The extension of a file name: what stands after its last dot, if that dot does not
/// open the name.
pub open spec fn extension_of(name: Seq<char>) -> Option<Seq<char>> {
    let dot = last_of(name, '.', '.');
    if dot > 0 {
        Some(name.subrange(dot + 1, name.len() as int))
    } else {
        None
    }
}

/// The library that a file stem names: off Windows a leading `lib` is dropped.
pub open spec fn library_name_of(stem: Seq<char>, windows: bool) -> Seq<char> {
    if !windows && starts_with(stem, "lib"@) {
        stem.subrange(3, stem.len() as int)
    } else {
        stem
    }
}

/// The extension of `name` is `a` or `lib`, in any case of letters.
pub open spec fn names_archive(name: Seq<char>) -> bool {
    match extension_of(name) {
        Some(e) => same_ignoring_case(e, "a"@) || same_ignoring_case(e, "lib"@),
        None => false,
    }
}

/// Whether a specifier of kind `kind` is linked statically.
pub open spec fn is_static_of(kind: SpecifierKind, s: Seq<char>) -> bool {
    match kind {
        SpecifierKind::StaticArchive => true,
        SpecifierKind::PathLike => names_archive(file_name_of(s)),
        _ => false,
    }
}

/// The search path that a path to a library file gives: its directory, if it has one.
pub open spec fn search_part(s: Seq<char>) -> Seq<DirectiveView> {
    match parent_of(s) {
        Some(dir) => seq![DirectiveView::LinkSearchPath(dir)],
        None => Seq::empty(),
    }
}

/// The library that a path to a library file gives: the stem of its file name, or the
/// whole specifier, linked dynamically, where the path ends in a separator.
pub open spec fn library_part(s: Seq<char>, windows: bool, is_static: bool) -> DirectiveView {
    let name = file_name_of(s);
    if name.len() == 0 {
        DirectiveView::LinkLibrary(s, false)
    } else {
        DirectiveView::LinkLibrary(library_name_of(stem_of(name), windows), is_static)
    }
}

/// What the decision table gives for `s`, before any casing variant.
pub open spec fn core_directives(s: Seq<char>, windows: bool) -> Seq<DirectiveView> {
    match kind_of_text(s) {
        SpecifierKind::Empty => Seq::empty(),
        SpecifierKind::LibraryFlag => seq![
            DirectiveView::LinkLibrary(s.subrange(2, s.len() as int), false),
        ],
        SpecifierKind::SearchPathFlag => seq![
            DirectiveView::LinkSearchPath(s.subrange(2, s.len() as int)),
        ],
        SpecifierKind::PlainToken => seq![DirectiveView::LinkLibrary(s, false)],
        kind => search_part(s).push(library_part(s, windows, is_static_of(kind, s))),
    }
}

/// The name under which the target library is published.
pub open spec fn canonical_name() -> Seq<char> {
    "QuEST"@
}

/// `d` links a library whose name is the canonical name up to the case of letters.
pub open spec fn names_target(d: DirectiveView) -> bool {
    match d {
        DirectiveView::LinkLibrary(name, _) => same_ignoring_case(name, canonical_name()),
        _ => false,
    }
}

/// Some directive of `list` names the target library.
pub open spec fn any_names_target(list: Seq<DirectiveView>) -> bool {
    exists|i: int| 0 <= i < list.len() && names_target(#[trigger] list[i])
}

/// `list` followed by the three casing variants of the target library, published,
/// lower and upper, each linked dynamically and added only where it is missing.
pub open spec fn with_variants(list: Seq<DirectiveView>) -> Seq<DirectiveView> {
    push_if_missing(
        push_if_missing(
            push_if_missing(list, DirectiveView::LinkLibrary("QuEST"@, false)),
            DirectiveView::LinkLibrary("quest"@, false),
        ),
        DirectiveView::LinkLibrary("QUEST"@, false),
    )
}

/// The directives that `s` is classified into on the given platform: the decision
/// table's, and under the casing policy the variants of the target library where the
/// table named it.
pub open spec fn classification(s: Seq<char>, windows: bool, variants: bool) -> Seq<
    DirectiveView,
> {
    let core = core_directives(s, windows);
    if variants && any_names_target(core) {
        with_variants(core)
    } else {
        core
    }
}

/// Classification depends on nothing but the specifier and the platform flag: equal
/// inputs give equal directives, whenever and in whatever order they are classified.
pub proof fn lemma_classification_is_pure(
    a: Seq<char>,
    a_windows: bool,
    b: Seq<char>,
    b_windows: bool,
    variants: bool,
)
    requires
        a =~= b,
        a_windows == b_windows,
    ensures
        classification(a, a_windows, variants) == classification(b, b_windows, variants),
        kind_of_text(a) == kind_of_text(b),
{
}

/// The decision table gives at most one search path and at most one library, in that
/// order, so no directive twice.
pub proof fn lemma_core_directives_shape(s: Seq<char>, windows: bool)
    ensures
        core_directives(s, windows).len() <= 2,
        core_directives(s, windows).no_duplicates(),
        kind_of_text(s) == SpecifierKind::Empty <==> core_directives(s, windows).len() == 0,
{
    let core = core_directives(s, windows);
    if core.len() == 2 {
        assert(core[0] is LinkSearchPath);
        assert(core[1] is LinkLibrary);
    }
}

/// No directive stands twice in a classification.
pub proof fn lemma_classification_no_duplicates(s: Seq<char>, windows: bool, variants: bool)
    ensures
        classification(s, windows, variants).no_duplicates(),
{
    let core = core_directives(s, windows);
    lemma_core_directives_shape(s, windows);
    let one = push_if_missing(core, DirectiveView::LinkLibrary("QuEST"@, false));
    lemma_push_if_missing(core, DirectiveView::LinkLibrary("QuEST"@, false));
    let two = push_if_missing(one, DirectiveView::LinkLibrary("quest"@, false));
    lemma_push_if_missing(one, DirectiveView::LinkLibrary("quest"@, false));
    lemma_push_if_missing(two, DirectiveView::LinkLibrary("QUEST"@, false));
}

/// The row of the decision table that `spec` falls under.
pub fn kind_of(spec: &str) -> (r: SpecifierKind)
    ensures
        r == kind_of_text(spec@),
{
    let chars = chars_of(spec);
    kind_of_chars(&chars)
}

fn kind_of_chars(chars: &Vec<char>) -> (r: SpecifierKind)
    ensures
        r == kind_of_text(chars@),
{
    if chars.len() == 0 {
        SpecifierKind::Empty
    } else if has_prefix(chars, "-l") {
        SpecifierKind::LibraryFlag
    } else if has_prefix(chars, "-L") {
        SpecifierKind::SearchPathFlag
    } else if has_suffix(chars, ".a") || has_suffix(chars, ".lib") {
        SpecifierKind::StaticArchive
    } else if has_suffix(chars, ".so") || has_suffix(chars, ".dylib") || has_suffix(
        chars,
        ".dll",
    ) {
        SpecifierKind::SharedLibrary
    } else if find_last(chars, '/', '\\').is_some() {
        SpecifierKind::PathLike
    } else {
        SpecifierKind::PlainToken
    }
}

/// The library that the file name `name` gives, and whether its extension is that of
/// an archive.
fn library_of_file(name: &str, is_windows: bool) -> (r: (String, bool))
    ensures
        r.0@ == library_name_of(stem_of(name@), is_windows),
        r.1 == names_archive(name@),
{
    let chars = chars_of(name);
    let dot = find_last(&chars, '.', '.');
    let (stem, archive) = match dot {
        Some(at) if at > 0 => {
            assert(at < chars.len());
            let ext = slice_of(name, at + 1, chars.len());
            let ext_chars = chars_of(ext.as_str());
            let a = chars_of("a");
            let lib = chars_of("lib");
            let archive = equals_ignoring_case(&ext_chars, &a) || equals_ignoring_case(
                &ext_chars,
                &lib,
            );
            (slice_of(name, 0, at), archive)
        },
        _ => (owned(name), false),
    };
    let stem_chars = chars_of(stem.as_str());
    if !is_windows && has_prefix(&stem_chars, "lib") {
        proof {
            reveal_strlit("lib");
        }
        (slice_of(stem.as_str(), 3, stem_chars.len()), archive)
    } else {
        (stem, archive)
    }
}

/// The directives for a specifier that is read as a path to a library file.
fn path_directives(spec: &str, chars: &Vec<char>, is_windows: bool, kind: SpecifierKind) -> (r:
    Vec<ClassifiedDirective>)
    requires
        chars@ == spec@,
    ensures
        directive_views(r@) == search_part(spec@).push(
            library_part(spec@, is_windows, is_static_of(kind, spec@)),
        ),
{
    let mut out: Vec<ClassifiedDirective> = Vec::new();
    let sep = find_last(chars, '/', '\\');
    let start: usize = match sep {
        Some(at) => {
            let dir = if at == 0 {
                slice_of(spec, 0, 1)
            } else {
                slice_of(spec, 0, at)
            };
            out.push(ClassifiedDirective::LinkSearchPath(dir));
            assert(at < chars.len());
            at + 1
        },
        None => 0,
    };
    assert(directive_views(out@) =~= search_part(spec@));
    let ghost before = out@;
    if start == chars.len() {
        out.push(ClassifiedDirective::LinkLibrary(owned(spec), false));
    } else {
        let name = slice_of(spec, start, chars.len());
        let (library, archive) = library_of_file(name.as_str(), is_windows);
        let is_static = match kind {
            SpecifierKind::StaticArchive => true,
            SpecifierKind::PathLike => archive,
            _ => false,
        };
        out.push(ClassifiedDirective::LinkLibrary(library, is_static));
    }
    proof {
        lemma_directive_views_push(before, out@[out@.len() - 1]);
        assert(out@ =~= before.push(out@[out@.len() - 1]));
    }
    out
}

/// What the decision table gives for `spec`, before any casing variant.
pub fn classify_core(spec: &str, is_windows: bool) -> (r: Vec<ClassifiedDirective>)
    ensures
        directive_views(r@) == core_directives(spec@, is_windows),
{
    let chars = chars_of(spec);
    let kind = kind_of_chars(&chars);
    let mut out: Vec<ClassifiedDirective> = Vec::new();
    match kind {
        SpecifierKind::Empty => {
            assert(directive_views(out@) =~= core_directives(spec@, is_windows));
        },
        SpecifierKind::LibraryFlag => {
            proof {
                reveal_strlit("-l");
            }
            out.push(ClassifiedDirective::LinkLibrary(slice_of(spec, 2, chars.len()), false));
            assert(directive_views(out@) =~= core_directives(spec@, is_windows));
        },
        SpecifierKind::SearchPathFlag => {
            proof {
                reveal_strlit("-L");
            }
            out.push(ClassifiedDirective::LinkSearchPath(slice_of(spec, 2, chars.len())));
            assert(directive_views(out@) =~= core_directives(spec@, is_windows));
        },
        SpecifierKind::PlainToken => {
            out.push(ClassifiedDirective::LinkLibrary(owned(spec), false));
            assert(directive_views(out@) =~= core_directives(spec@, is_windows));
        },
        _ => {
            out = path_directives(spec, &chars, is_windows, kind);
        },
    }
    out
}

/// The name under which the target library is published.
pub fn library_name() -> (r: String)
    ensures
        r@ == canonical_name(),
{
    owned("QuEST")
}

/// Whether `d` links a library whose name is the canonical name up to the case of
/// letters.
pub fn is_target_library(d: &ClassifiedDirective) -> (r: bool)
    ensures
        r == names_target(d@),
{
    match d {
        ClassifiedDirective::LinkLibrary(name, _) => {
            let chars = chars_of(name.as_str());
            let canonical = chars_of("QuEST");
            equals_ignoring_case(&chars, &canonical)
        },
        _ => false,
    }
}

/// Adds `d` to `list` unless a directive of the same value is already in it.
pub fn push_missing(list: &mut Vec<ClassifiedDirective>, d: ClassifiedDirective)
    ensures
        directive_views(final(list)@) == push_if_missing(directive_views(old(list)@), d@),
{
    if !holds_directive(list, &d) {
        proof {
            lemma_directive_views_push(list@, d);
        }
        list.push(d);
    }
}

/// Adds the three casing variants of the target library to `list`, each where missing.
pub fn add_casing_variants(list: &mut Vec<ClassifiedDirective>)
    ensures
        directive_views(final(list)@) == with_variants(directive_views(old(list)@)),
{
    push_missing(list, ClassifiedDirective::LinkLibrary(owned("QuEST"), false));
    push_missing(list, ClassifiedDirective::LinkLibrary(owned("quest"), false));
    push_missing(list, ClassifiedDirective::LinkLibrary(owned("QUEST"), false));
}

/// Whether some directive of `list` names the target library.
pub fn mentions_target(list: &Vec<ClassifiedDirective>) -> (r: bool)
    ensures
        r == any_names_target(directive_views(list@)),
{
    let mut i: usize = 0;
    while i < list.len()
        invariant
            i <= list.len(),
            forall|k: int| 0 <= k < i ==> !names_target(#[trigger] directive_views(list@)[k]),
        decreases list.len() - i,
    {
        if is_target_library(&list[i]) {
            assert(names_target(directive_views(list@)[i as int]));
            return true;
        }
        i = i + 1;
    }
    false
}

/// Classifies `spec` under the given casing policy.
pub fn classify_with(spec: &str, is_windows: bool, policy: CasingPolicy) -> (r: Vec<
    ClassifiedDirective,
>)
    ensures
        directive_views(r@) == classification(spec@, is_windows, policy.emit_variants),
        directive_views(r@).no_duplicates(),
{
    let mut out = classify_core(spec, is_windows);
    if policy.emit_variants && mentions_target(&out) {
        add_casing_variants(&mut out);
    }
    proof {
        lemma_classification_no_duplicates(spec@, is_windows, policy.emit_variants);
    }
    out
}

/// Classifies `spec` into link directives, with the casing variants of the target
/// library where the specifier names it.
pub fn classify(spec: &str, is_windows: bool) -> (r: Vec<ClassifiedDirective>)
    ensures
        directive_views(r@) == classification(spec@, is_windows, true),
        directive_views(r@).no_duplicates(),
{
    classify_with(spec, is_windows, CasingPolicy { emit_variants: true })
}

} // verus!
