//! One target's document: its typed form, the decoding of that form from JSON, and
//! the extraction of a discovery result from it.

use crate::classify::{canonical_name, classification, classify_with, CasingPolicy};
use crate::json::{collect_texts, json_views, texts_under, Json, JsonView};
use crate::result::{DiscoveryResult, DiscoveryView};
use crate::text::{
    chars_of,
    contains_ignoring_case,
    has_prefix,
    mentions,
    same_text,
    owned,
    slice_of,
    starts_with,
    texts,
};
use vstd::prelude::*;

verus! {

/// The compile settings shared by some of a target's sources.
#[derive(Debug, Clone, PartialEq, Eq)]
pub struct CompileGroup {
    /// Raw definitions, `NAME` or `NAME=VALUE`.
    pub defines: Vec<String>,
    /// Header search directories.
    pub includes: Vec<String>,
}

/// One piece of a target's link command.
#[derive(Debug, Clone, PartialEq, Eq)]
pub struct CommandFragment {
    pub role: String,
    pub text: String,
}

/// A target's link section, in one of its two forms, or none.
#[derive(Debug, Clone, PartialEq, Eq)]
pub enum LinkSection {
    Absent,
    /// The link command in fragments, each tagged with a role.
    Fragments(Vec<CommandFragment>),
    /// Library specifiers and system library directories.
    Legacy { libraries: Vec<String>, search_directories: Vec<String> },
}

/// One target's document.
#[derive(Debug, Clone, PartialEq, Eq)]
pub struct TargetDescriptor {
    pub name: String,
    pub compile_groups: Vec<CompileGroup>,
    pub link: LinkSection,
    /// Paths of the files that the target produces.
    pub artifacts: Vec<String>,
}

/// The mathematical value of a `CompileGroup`.
pub struct CompileGroupView {
    pub defines: Seq<Seq<char>>,
    pub includes: Seq<Seq<char>>,
}

/// The mathematical value of a `CommandFragment`.
pub struct FragmentView {
    pub role: Seq<char>,
    pub text: Seq<char>,
}

/// The mathematical value of a `LinkSection`.
pub enum LinkView {
    Absent,
    Fragments(Seq<FragmentView>),
    Legacy { libraries: Seq<Seq<char>>, search_directories: Seq<Seq<char>> },
}

/// The mathematical value of a `TargetDescriptor`.
pub struct TargetView {
    pub name: Seq<char>,
    pub compile_groups: Seq<CompileGroupView>,
    pub link: LinkView,
    pub artifacts: Seq<Seq<char>>,
}

impl View for CompileGroup {
    type V = CompileGroupView;

    open spec fn view(&self) -> CompileGroupView {
        CompileGroupView { defines: texts(self.defines@), includes: texts(self.includes@) }
    }
}

impl View for CommandFragment {
    type V = FragmentView;

    open spec fn view(&self) -> FragmentView {
        FragmentView { role: self.role@, text: self.text@ }
    }
}

/// The values of a sequence of compile groups, in order.
pub open spec fn group_views(v: Seq<CompileGroup>) -> Seq<CompileGroupView> {
    Seq::new(v.len(), |i: int| v[i]@)
}

/// The values of a sequence of command fragments, in order.
pub open spec fn fragment_views(v: Seq<CommandFragment>) -> Seq<FragmentView> {
    Seq::new(v.len(), |i: int| v[i]@)
}

impl View for LinkSection {
    type V = LinkView;

    open spec fn view(&self) -> LinkView {
        match self {
            LinkSection::Absent => LinkView::Absent,
            LinkSection::Fragments(fragments) => LinkView::Fragments(fragment_views(fragments@)),
            LinkSection::Legacy { libraries, search_directories } => LinkView::Legacy {
                libraries: texts(libraries@),
                search_directories: texts(search_directories@),
            },
        }
    }
}

impl View for TargetDescriptor {
    type V = TargetView;

    open spec fn view(&self) -> TargetView {
        TargetView {
            name: self.name@,
            compile_groups: group_views(self.compile_groups@),
            link: self.link@,
            artifacts: texts(self.artifacts@),
        }
    }
}

/// The compile group that a JSON element describes: the `define` texts of its
/// `defines` and the `path` texts of its `includes`.
pub open spec fn decoded_group(g: JsonView) -> CompileGroupView {
    CompileGroupView {
        defines: texts_under(g.items_at("defines"@), "define"@),
        includes: texts_under(g.items_at("includes"@), "path"@),
    }
}

/// The compile groups that the elements of `items` describe, one for each.
pub open spec fn decoded_groups(items: Seq<JsonView>) -> Seq<CompileGroupView> {
    Seq::new(items.len(), |i: int| decoded_group(items[i]))
}

/// The command fragments that the elements of `items` describe: one for each element
/// that holds both a `role` and a `fragment` text.
pub open spec fn decoded_fragments(items: Seq<JsonView>) -> Seq<FragmentView>
    decreases items.len(),
{
    if items.len() == 0 {
        Seq::empty()
    } else {
        let front = decoded_fragments(items.drop_last());
        match (items.last().text_at("role"@), items.last().text_at("fragment"@)) {
            (Some(role), Some(text)) => front.push(FragmentView { role, text }),
            _ => front,
        }
    }
}

/// The link section that the `link` member of a target document describes. With an
/// array `commandFragments` it is in fragments; any other object is in the legacy form.
pub open spec fn decoded_link(link: Option<JsonView>) -> LinkView {
    match link {
        Some(JsonView::Object(members)) => {
            let section = JsonView::Object(members);
            match section.member("commandFragments"@) {
                Some(JsonView::Array(items)) => LinkView::Fragments(decoded_fragments(items)),
                _ => LinkView::Legacy {
                    libraries: texts_under(section.items_at("libraries"@), "name"@),
                    search_directories: match section.member("sysroot"@) {
                        Some(sysroot) => texts_under(
                            sysroot.items_at("libraryDirectories"@),
                            "path"@,
                        ),
                        None => Seq::empty(),
                    },
                },
            }
        },
        _ => LinkView::Absent,
    }
}

/// The target that a document describes; a document without a `name` text describes
/// none.
pub open spec fn decoded_target(doc: JsonView) -> Option<TargetView> {
    match doc.text_at("name"@) {
        Some(name) => Some(
            TargetView {
                name,
                compile_groups: decoded_groups(doc.items_at("compileGroups"@)),
                link: decoded_link(doc.member("link"@)),
                artifacts: texts_under(doc.items_at("artifacts"@), "path"@),
            },
        ),
        None => None,
    }
}

/// `list` folded into `v`, element after element, by `step`.
pub open spec fn fold_over<A>(
    v: DiscoveryView,
    list: Seq<A>,
    step: spec_fn(DiscoveryView, A) -> DiscoveryView,
) -> DiscoveryView
    decreases list.len(),
{
    if list.len() == 0 {
        v
    } else {
        step(fold_over(v, list.drop_last(), step), list.last())
    }
}

/// The marker that opens a runtime search path among the link fragments.
pub open spec fn rpath_marker() -> Seq<char> {
    "-Wl,-rpath,"@
}

/// The role of the link fragments that name libraries.
pub open spec fn libraries_role() -> Seq<char> {
    "libraries"@
}

/// `v` with every path of `paths` as an include path.
pub open spec fn with_includes(v: DiscoveryView, paths: Seq<Seq<char>>) -> DiscoveryView {
    fold_over(v, paths, |a: DiscoveryView, p: Seq<char>| a.with_include(p))
}

/// `v` with every raw definition of `raws`.
pub open spec fn with_raw_defines(v: DiscoveryView, raws: Seq<Seq<char>>) -> DiscoveryView {
    fold_over(v, raws, |a: DiscoveryView, r: Seq<char>| a.with_raw_define(r))
}

/// `v` with every path of `paths` as a library search path.
pub open spec fn with_search_paths(v: DiscoveryView, paths: Seq<Seq<char>>) -> DiscoveryView {
    fold_over(v, paths, |a: DiscoveryView, p: Seq<char>| a.with_search_path(p))
}

/// `v` with the includes and then the definitions of one compile group.
pub open spec fn with_group(v: DiscoveryView, g: CompileGroupView) -> DiscoveryView {
    with_raw_defines(with_includes(v, g.includes), g.defines)
}

/// `v` with every compile group of `groups`.
pub open spec fn with_groups(v: DiscoveryView, groups: Seq<CompileGroupView>) -> DiscoveryView {
    fold_over(v, groups, |a: DiscoveryView, g: CompileGroupView| with_group(a, g))
}

/// `v` with the directives that the specifier `s` is classified into, with the casing
/// variants of the target library if `variants` holds.
pub open spec fn with_specifier(
    v: DiscoveryView,
    s: Seq<char>,
    windows: bool,
    variants: bool,
) -> DiscoveryView {
    v.with_directives(classification(s, windows, variants))
}

/// `v` with the directives of every specifier of `list`.
pub open spec fn with_specifiers(
    v: DiscoveryView,
    list: Seq<Seq<char>>,
    windows: bool,
    variants: bool,
) -> DiscoveryView {
    fold_over(v, list, |a: DiscoveryView, s: Seq<char>| with_specifier(a, s, windows, variants))
}

/// `v` with what one link fragment gives: nothing unless its role is that of the
/// libraries; a search path for what follows the runtime-search-path marker; else the
/// directives of its text as a specifier.
pub open spec fn with_fragment(
    v: DiscoveryView,
    f: FragmentView,
    windows: bool,
    variants: bool,
) -> DiscoveryView {
    if f.role != libraries_role() {
        v
    } else if starts_with(f.text, rpath_marker()) {
        v.with_search_path(f.text.subrange(rpath_marker().len() as int, f.text.len() as int))
    } else {
        with_specifier(v, f.text, windows, variants)
    }
}

/// `v` with what every fragment of `list` gives.
pub open spec fn with_fragments(
    v: DiscoveryView,
    list: Seq<FragmentView>,
    windows: bool,
    variants: bool,
) -> DiscoveryView {
    fold_over(v, list, |a: DiscoveryView, f: FragmentView| with_fragment(a, f, windows, variants))
}

/// `v` with what a link section gives.
pub open spec fn with_link(
    v: DiscoveryView,
    link: LinkView,
    windows: bool,
    variants: bool,
) -> DiscoveryView {
    match link {
        LinkView::Absent => v,
        LinkView::Fragments(list) => with_fragments(v, list, windows, variants),
        LinkView::Legacy { libraries, search_directories } => with_search_paths(
            with_specifiers(v, libraries, windows, variants),
            search_directories,
        ),
    }
}

/// `s` holds the canonical name of the target library, in any case of letters.
pub open spec fn shows_library(s: Seq<char>) -> bool {
    mentions(s, canonical_name())
}

/// Some text of `list` shows the target library.
pub open spec fn any_shows(list: Seq<Seq<char>>) -> bool {
    exists|i: int| 0 <= i < list.len() && shows_library(#[trigger] list[i])
}

/// A definition or an include path of the group shows the target library.
pub open spec fn group_shows(g: CompileGroupView) -> bool {
    any_shows(g.defines) || any_shows(g.includes)
}

/// Some compile group of `groups` shows the target library.
pub open spec fn any_group_shows(groups: Seq<CompileGroupView>) -> bool {
    exists|i: int| 0 <= i < groups.len() && group_shows(#[trigger] groups[i])
}

/// The fragment names libraries and its text shows the target library.
pub open spec fn fragment_shows(f: FragmentView) -> bool {
    f.role == libraries_role() && shows_library(f.text)
}

/// Some fragment of `list` shows the target library.
pub open spec fn any_fragment_shows(list: Seq<FragmentView>) -> bool {
    exists|i: int| 0 <= i < list.len() && fragment_shows(#[trigger] list[i])
}

/// A library string of the link section shows the target library.
pub open spec fn link_shows(link: LinkView) -> bool {
    match link {
        LinkView::Absent => false,
        LinkView::Fragments(list) => any_fragment_shows(list),
        LinkView::Legacy { libraries, search_directories } => any_shows(libraries),
    }
}

/// The target shows the library: in a definition, an include path, a library string
/// or an artifact path.
pub open spec fn target_shows(t: TargetView) -> bool {
    any_group_shows(t.compile_groups) || link_shows(t.link) || any_shows(t.artifacts)
}

/// The discovery result that a target gives: the includes and definitions of its
/// compile groups, the search paths and libraries of its link section, and the library
/// found exactly if the target shows it. The casing variants of the target library are
/// among the libraries if `variants` holds.
pub open spec fn extraction_under(t: TargetView, windows: bool, variants: bool) -> DiscoveryView {
    with_link(
        with_groups(DiscoveryView::empty(), t.compile_groups),
        t.link,
        windows,
        variants,
    ).with_presence(target_shows(t))
}

/// The discovery result that a target gives under the casing policy in force, which
/// adds the casing variants of the target library.
pub open spec fn extraction(t: TargetView, windows: bool) -> DiscoveryView {
    extraction_under(t, windows, true)
}

/// Folding one element more applies the step once more.
pub proof fn lemma_fold_step<A>(
    v: DiscoveryView,
    list: Seq<A>,
    step: spec_fn(DiscoveryView, A) -> DiscoveryView,
    i: int,
)
    requires
        0 <= i < list.len(),
    ensures
        fold_over(v, list.take(i + 1), step) == step(fold_over(v, list.take(i), step), list[i]),
        fold_over(v, list.take(0), step) == v,
        fold_over(v, list.take(list.len() as int), step) == fold_over(v, list, step),
{
    assert(list.take(i + 1).drop_last() =~= list.take(i));
    assert(list.take(list.len() as int) =~= list);
}

/// A fold whose step leaves the found flag alone leaves it alone.
pub proof fn lemma_fold_keeps_found<A>(
    v: DiscoveryView,
    list: Seq<A>,
    step: spec_fn(DiscoveryView, A) -> DiscoveryView,
)
    requires
        forall|a: DiscoveryView, x: A|
            #![trigger step(a, x)]
            a.wf() ==> step(a, x).wf() && step(a, x).found == a.found,
        v.wf(),
    ensures
        fold_over(v, list, step).found == v.found,
        fold_over(v, list, step).wf(),
    decreases list.len(),
{
    if list.len() > 0 {
        lemma_fold_keeps_found(v, list.drop_last(), step);
        let front = fold_over(v, list.drop_last(), step);
        assert(step(front, list.last()).wf() && step(front, list.last()).found == front.found);
    }
}

/// Adding the directives of a specifier leaves a result well-formed and its found flag
/// alone.
pub proof fn lemma_specifier_keeps_found(
    v: DiscoveryView,
    s: Seq<char>,
    windows: bool,
    variants: bool,
)
    requires
        v.wf(),
    ensures
        with_specifier(v, s, windows, variants).wf(),
        with_specifier(v, s, windows, variants).found == v.found,
{
    crate::result::lemma_with_directives_keeps_wf(v, classification(s, windows, variants));
}

/// The library is found by an extraction exactly if the target shows it: in a
/// definition, an include path, a library string or an artifact path.
pub proof fn lemma_extraction_found(t: TargetView, windows: bool, variants: bool)
    ensures
        extraction_under(t, windows, variants).found == target_shows(t),
        extraction_under(t, windows, variants).wf(),
{
    let header = |a: DiscoveryView, p: Seq<char>| a.with_include(p);
    let define = |a: DiscoveryView, r: Seq<char>| a.with_raw_define(r);
    let search = |a: DiscoveryView, p: Seq<char>| a.with_search_path(p);
    let group = |a: DiscoveryView, g: CompileGroupView| with_group(a, g);
    let specifier = |a: DiscoveryView, s: Seq<char>| with_specifier(a, s, windows, variants);
    let fragment = |a: DiscoveryView, f: FragmentView| with_fragment(a, f, windows, variants);
    assert forall|a: DiscoveryView, p: Seq<char>| a.wf() implies (#[trigger] header(a, p)).wf()
        && header(a, p).found == a.found by {
        crate::result::lemma_additions_keep_wf(a, crate::directive::DirectiveView::IncludePath(p));
    }
    assert forall|a: DiscoveryView, p: Seq<char>| a.wf() implies (#[trigger] search(a, p)).wf()
        && search(a, p).found == a.found by {
        crate::result::lemma_additions_keep_wf(
            a,
            crate::directive::DirectiveView::LinkSearchPath(p),
        );
    }
    assert forall|a: DiscoveryView, r: Seq<char>| a.wf() implies (#[trigger] define(a, r)).wf()
        && define(a, r).found == a.found by {
        crate::result::lemma_additions_keep_wf(
            a,
            crate::directive::DirectiveView::Define(
                crate::result::define_name(r),
                crate::result::define_value(r),
            ),
        );
    }
    assert forall|a: DiscoveryView, g: CompileGroupView| a.wf() implies (#[trigger] group(a, g)).wf()
        && group(a, g).found == a.found by {
        lemma_fold_keeps_found(a, g.includes, header);
        lemma_fold_keeps_found(with_includes(a, g.includes), g.defines, define);
    }
    assert forall|a: DiscoveryView, s: Seq<char>| a.wf() implies (#[trigger] specifier(a, s)).wf()
        && specifier(a, s).found == a.found by {
        lemma_specifier_keeps_found(a, s, windows, variants);
    }
    assert forall|a: DiscoveryView, f: FragmentView| a.wf() implies (#[trigger] fragment(a, f)).wf()
        && fragment(a, f).found == a.found by {
        lemma_specifier_keeps_found(a, f.text, windows, variants);
        crate::result::lemma_additions_keep_wf(
            a,
            crate::directive::DirectiveView::LinkSearchPath(
                f.text.subrange(rpath_marker().len() as int, f.text.len() as int),
            ),
        );
    }
    let empty = DiscoveryView::empty();
    assert(crate::result::keys_of(empty.defines) =~= Seq::empty());
    assert(crate::result::keys_of(empty.libraries) =~= Seq::empty());
    lemma_fold_keeps_found(empty, t.compile_groups, group);
    let grouped = with_groups(empty, t.compile_groups);
    match t.link {
        LinkView::Absent => {},
        LinkView::Fragments(list) => {
            lemma_fold_keeps_found(grouped, list, fragment);
        },
        LinkView::Legacy { libraries, search_directories } => {
            lemma_fold_keeps_found(grouped, libraries, specifier);
            lemma_fold_keeps_found(
                with_specifiers(grouped, libraries, windows, variants),
                search_directories,
                search,
            );
        },
    }
}

/// The texts that the elements of the array member `list_key` of `doc` hold under
/// `item_key`.
fn texts_at(doc: &Json, list_key: &str, item_key: &str) -> (r: Vec<String>)
    ensures
        texts(r@) == texts_under(doc@.items_at(list_key@), item_key@),
{
    match doc.items_at(list_key) {
        Some(items) => collect_texts(items, item_key),
        None => Vec::new(),
    }
}

/// The compile group that the JSON element `g` describes.
pub fn decode_group(g: &Json) -> (r: CompileGroup)
    ensures
        r@ == decoded_group(g@),
{
    CompileGroup {
        defines: texts_at(g, "defines", "define"),
        includes: texts_at(g, "includes", "path"),
    }
}

/// The command fragments that the JSON elements `items` describe.
pub fn decode_fragments(items: &Vec<Json>) -> (r: Vec<CommandFragment>)
    ensures
        fragment_views(r@) == decoded_fragments(json_views(items@)),
{
    let mut out: Vec<CommandFragment> = Vec::new();
    let ghost all = json_views(items@);
    let mut i: usize = 0;
    assert(fragment_views(out@) =~= decoded_fragments(all.take(0)));
    while i < items.len()
        invariant
            i <= items.len(),
            all == json_views(items@),
            fragment_views(out@) == decoded_fragments(all.take(i as int)),
        decreases items.len() - i,
    {
        proof {
            assert(all.take(i + 1).drop_last() =~= all.take(i as int));
            assert(all.take(i + 1).last() == items@[i as int]@);
        }
        let role = items[i].text_at("role");
        let text = items[i].text_at("fragment");
        match (role, text) {
            (Some(role), Some(text)) => {
                out.push(CommandFragment { role: role.clone(), text: text.clone() });
            },
            _ => {},
        }
        i = i + 1;
    }
    proof {
        assert(all.take(items.len() as int) =~= all);
    }
    out
}

/// The link section that the `link` member of the target document `doc` describes.
pub fn decode_link(doc: &Json) -> (r: LinkSection)
    ensures
        r@ == decoded_link(doc@.member("link"@)),
{
    match doc.get("link") {
        Some(section) => match section {
            Json::Object(_) => match section.items_at("commandFragments") {
                Some(items) => LinkSection::Fragments(decode_fragments(items)),
                None => {
                    let libraries = texts_at(section, "libraries", "name");
                    let search_directories = match section.get("sysroot") {
                        Some(sysroot) => texts_at(sysroot, "libraryDirectories", "path"),
                        None => {
                            let none: Vec<String> = Vec::new();
                            proof {
                                assert(texts(none@) =~= Seq::<Seq<char>>::empty());
                            }
                            none
                        },
                    };
                    LinkSection::Legacy { libraries, search_directories }
                },
            },
            _ => LinkSection::Absent,
        },
        None => LinkSection::Absent,
    }
}

/// The target that the document `doc` describes, if it has a `name` text.
pub fn decode_target(doc: &Json) -> (r: Option<TargetDescriptor>)
    ensures
        match r {
            Some(t) => decoded_target(doc@) == Some(t@),
            None => decoded_target(doc@) is None,
        },
{
    let name = match doc.text_at("name") {
        Some(name) => name.clone(),
        None => {
            return None;
        },
    };
    let mut compile_groups: Vec<CompileGroup> = Vec::new();
    match doc.items_at("compileGroups") {
        Some(items) => {
            let ghost all = json_views(items@);
            let mut i: usize = 0;
            while i < items.len()
                invariant
                    i <= items.len(),
                    all == json_views(items@),
                    compile_groups.len() == i,
                    group_views(compile_groups@) =~= decoded_groups(all.take(i as int)),
                decreases items.len() - i,
            {
                let ghost before = compile_groups@;
                compile_groups.push(decode_group(&items[i]));
                proof {
                    assert forall|k: int| 0 <= k <= i implies group_views(compile_groups@)[k]
                        == decoded_groups(all.take(i + 1))[k] by {
                        if k < i {
                            assert(group_views(before)[k] == decoded_groups(all.take(i as int))[k]);
                        }
                    }
                }
                i = i + 1;
            }
            proof {
                assert(all.take(items.len() as int) =~= all);
            }
        },
        None => {
            proof {
                assert(group_views(compile_groups@) =~= decoded_groups(Seq::empty()));
            }
        },
    }
    let link = decode_link(doc);
    let artifacts = texts_at(doc, "artifacts", "path");
    Some(TargetDescriptor { name, compile_groups, link, artifacts })
}

/// Whether `s` holds the canonical name of the target library, in any case of letters.
pub fn mentions_library(s: &str) -> (r: bool)
    ensures
        r == shows_library(s@),
{
    let hay = chars_of(s);
    let needle = chars_of("QuEST");
    contains_ignoring_case(&hay, &needle)
}

/// Whether some text of `list` shows the target library.
fn any_mentions_library(list: &Vec<String>) -> (r: bool)
    ensures
        r == any_shows(texts(list@)),
{
    let mut i: usize = 0;
    while i < list.len()
        invariant
            i <= list.len(),
            forall|k: int| 0 <= k < i ==> !shows_library(#[trigger] texts(list@)[k]),
        decreases list.len() - i,
    {
        if mentions_library(list[i].as_str()) {
            assert(shows_library(texts(list@)[i as int]));
            return true;
        }
        i = i + 1;
    }
    false
}

/// Whether a library string of the link section shows the target library.
fn link_mentions_library(link: &LinkSection) -> (r: bool)
    ensures
        r == link_shows(link@),
{
    match link {
        LinkSection::Absent => false,
        LinkSection::Fragments(list) => {
            let role = owned("libraries");
            let mut seen = false;
            let mut j: usize = 0;
            while j < list.len()
                invariant
                    j <= list.len(),
                    role@ == libraries_role(),
                    seen == exists|k: int|
                        0 <= k < j && fragment_shows(#[trigger] fragment_views(list@)[k]),
                decreases list.len() - j,
            {
                let here = same_text(&list[j].role, &role) && mentions_library(
                    list[j].text.as_str(),
                );
                proof {
                    assert(here == fragment_shows(fragment_views(list@)[j as int]));
                }
                seen = seen || here;
                j = j + 1;
            }
            proof {
                assert(fragment_views(list@).len() == list.len());
                assert(link@ == LinkView::Fragments(fragment_views(list@)));
            }
            seen
        },
        LinkSection::Legacy { libraries, search_directories } => any_mentions_library(libraries),
    }
}

/// Whether the target shows the library: in a definition, an include path, a library
/// string or an artifact path.
pub fn shows_target_library(target: &TargetDescriptor) -> (r: bool)
    ensures
        r == target_shows(target@),
{
    let mut in_groups = false;
    let mut i: usize = 0;
    while i < target.compile_groups.len()
        invariant
            i <= target.compile_groups.len(),
            in_groups == exists|k: int|
                0 <= k < i && group_shows(#[trigger] group_views(target.compile_groups@)[k]),
        decreases target.compile_groups.len() - i,
    {
        let group = &target.compile_groups[i];
        let here = any_mentions_library(&group.defines) || any_mentions_library(&group.includes);
        proof {
            assert(here == group_shows(group_views(target.compile_groups@)[i as int]));
        }
        in_groups = in_groups || here;
        i = i + 1;
    }
    let in_link = link_mentions_library(&target.link);
    let in_artifacts = any_mentions_library(&target.artifacts);
    assert(in_groups == any_group_shows(target@.compile_groups));
    in_groups || in_link || in_artifacts
}

impl DiscoveryResult {
    /// Adds every path of `paths` as an include path.
    pub fn add_includes(&mut self, paths: &Vec<String>)
        requires
            old(self).wf(),
        ensures
            final(self).wf(),
            final(self)@ == with_includes(old(self)@, texts(paths@)),
    {
        let ghost all = texts(paths@);
        let ghost step = |a: DiscoveryView, p: Seq<char>| a.with_include(p);
        let mut i: usize = 0;
        while i < paths.len()
            invariant
                i <= paths.len(),
                self.wf(),
                all == texts(paths@),
                step == |a: DiscoveryView, p: Seq<char>| a.with_include(p),
                self@ == fold_over(old(self)@, all.take(i as int), step),
            decreases paths.len() - i,
        {
            proof {
                lemma_fold_step(old(self)@, all, step, i as int);
            }
            self.add_include(paths[i].clone());
            i = i + 1;
        }
        proof {
            assert(all.take(paths.len() as int) =~= all);
        }
    }

    /// Adds every raw definition of `raws`.
    pub fn add_raw_defines(&mut self, raws: &Vec<String>)
        requires
            old(self).wf(),
        ensures
            final(self).wf(),
            final(self)@ == with_raw_defines(old(self)@, texts(raws@)),
    {
        let ghost all = texts(raws@);
        let ghost step = |a: DiscoveryView, r: Seq<char>| a.with_raw_define(r);
        let mut i: usize = 0;
        while i < raws.len()
            invariant
                i <= raws.len(),
                self.wf(),
                all == texts(raws@),
                step == |a: DiscoveryView, r: Seq<char>| a.with_raw_define(r),
                self@ == fold_over(old(self)@, all.take(i as int), step),
            decreases raws.len() - i,
        {
            proof {
                lemma_fold_step(old(self)@, all, step, i as int);
            }
            self.add_raw_define(raws[i].as_str());
            i = i + 1;
        }
        proof {
            assert(all.take(raws.len() as int) =~= all);
        }
    }

    /// Adds every path of `paths` as a library search path.
    pub fn add_search_paths(&mut self, paths: &Vec<String>)
        requires
            old(self).wf(),
        ensures
            final(self).wf(),
            final(self)@ == with_search_paths(old(self)@, texts(paths@)),
    {
        let ghost all = texts(paths@);
        let ghost step = |a: DiscoveryView, p: Seq<char>| a.with_search_path(p);
        let mut i: usize = 0;
        while i < paths.len()
            invariant
                i <= paths.len(),
                self.wf(),
                all == texts(paths@),
                step == |a: DiscoveryView, p: Seq<char>| a.with_search_path(p),
                self@ == fold_over(old(self)@, all.take(i as int), step),
            decreases paths.len() - i,
        {
            proof {
                lemma_fold_step(old(self)@, all, step, i as int);
            }
            self.add_search_path(paths[i].clone());
            i = i + 1;
        }
        proof {
            assert(all.take(paths.len() as int) =~= all);
        }
    }

    /// Adds the directives that the specifier `spec` is classified into.
    pub fn add_specifier(&mut self, spec: &str, is_windows: bool, policy: CasingPolicy)
        requires
            old(self).wf(),
        ensures
            final(self).wf(),
            final(self)@ == with_specifier(old(self)@, spec@, is_windows, policy.emit_variants),
    {
        let directives = classify_with(spec, is_windows, policy);
        self.absorb_all(&directives);
    }

    /// Adds the directives of every specifier of `list`.
    pub fn add_specifiers(&mut self, list: &Vec<String>, is_windows: bool, policy: CasingPolicy)
        requires
            old(self).wf(),
        ensures
            final(self).wf(),
            final(self)@ == with_specifiers(
                old(self)@,
                texts(list@),
                is_windows,
                policy.emit_variants,
            ),
    {
        let ghost all = texts(list@);
        let ghost variants = policy.emit_variants;
        let ghost step = |a: DiscoveryView, s: Seq<char>| with_specifier(a, s, is_windows, variants);
        let mut i: usize = 0;
        while i < list.len()
            invariant
                i <= list.len(),
                self.wf(),
                all == texts(list@),
                variants == policy.emit_variants,
                step == |a: DiscoveryView, s: Seq<char>| with_specifier(a, s, is_windows, variants),
                self@ == fold_over(old(self)@, all.take(i as int), step),
            decreases list.len() - i,
        {
            proof {
                lemma_fold_step(old(self)@, all, step, i as int);
            }
            self.add_specifier(list[i].as_str(), is_windows, policy);
            i = i + 1;
        }
        proof {
            assert(all.take(list.len() as int) =~= all);
        }
    }

    /// Adds what one link fragment gives.
    pub fn add_fragment(
        &mut self,
        fragment: &CommandFragment,
        is_windows: bool,
        policy: CasingPolicy,
    )
        requires
            old(self).wf(),
        ensures
            final(self).wf(),
            final(self)@ == with_fragment(old(self)@, fragment@, is_windows, policy.emit_variants),
    {
        let role = owned("libraries");
        if same_text(&fragment.role, &role) {
            let chars = chars_of(fragment.text.as_str());
            if has_prefix(&chars, "-Wl,-rpath,") {
                proof {
                    reveal_strlit("-Wl,-rpath,");
                }
                self.add_search_path(slice_of(fragment.text.as_str(), 11, chars.len()));
            } else {
                self.add_specifier(fragment.text.as_str(), is_windows, policy);
            }
        }
    }

    /// Adds what every fragment of `list` gives.
    pub fn add_fragments(
        &mut self,
        list: &Vec<CommandFragment>,
        is_windows: bool,
        policy: CasingPolicy,
    )
        requires
            old(self).wf(),
        ensures
            final(self).wf(),
            final(self)@ == with_fragments(
                old(self)@,
                fragment_views(list@),
                is_windows,
                policy.emit_variants,
            ),
    {
        let ghost all = fragment_views(list@);
        let ghost variants = policy.emit_variants;
        let ghost step = |a: DiscoveryView, f: FragmentView| with_fragment(a, f, is_windows, variants);
        let mut i: usize = 0;
        while i < list.len()
            invariant
                i <= list.len(),
                self.wf(),
                all == fragment_views(list@),
                variants == policy.emit_variants,
                step == |a: DiscoveryView, f: FragmentView| with_fragment(a, f, is_windows, variants),
                self@ == fold_over(old(self)@, all.take(i as int), step),
            decreases list.len() - i,
        {
            proof {
                lemma_fold_step(old(self)@, all, step, i as int);
            }
            self.add_fragment(&list[i], is_windows, policy);
            i = i + 1;
        }
        proof {
            assert(all.take(list.len() as int) =~= all);
        }
    }

    /// Adds the includes and then the definitions of every compile group of `groups`.
    pub fn add_groups(&mut self, groups: &Vec<CompileGroup>)
        requires
            old(self).wf(),
        ensures
            final(self).wf(),
            final(self)@ == with_groups(old(self)@, group_views(groups@)),
    {
        let ghost all = group_views(groups@);
        let ghost step = |a: DiscoveryView, g: CompileGroupView| with_group(a, g);
        let mut i: usize = 0;
        while i < groups.len()
            invariant
                i <= groups.len(),
                self.wf(),
                all == group_views(groups@),
                step == |a: DiscoveryView, g: CompileGroupView| with_group(a, g),
                self@ == fold_over(old(self)@, all.take(i as int), step),
            decreases groups.len() - i,
        {
            proof {
                lemma_fold_step(old(self)@, all, step, i as int);
            }
            self.add_includes(&groups[i].includes);
            self.add_raw_defines(&groups[i].defines);
            i = i + 1;
        }
        proof {
            assert(all.take(groups.len() as int) =~= all);
        }
    }

    /// Adds what a link section gives.
    pub fn add_link(&mut self, link: &LinkSection, is_windows: bool, policy: CasingPolicy)
        requires
            old(self).wf(),
        ensures
            final(self).wf(),
            final(self)@ == with_link(old(self)@, link@, is_windows, policy.emit_variants),
    {
        match link {
            LinkSection::Absent => {},
            LinkSection::Fragments(list) => self.add_fragments(list, is_windows, policy),
            LinkSection::Legacy { libraries, search_directories } => {
                self.add_specifiers(libraries, is_windows, policy);
                self.add_search_paths(search_directories);
            },
        }
    }
}

/// The discovery result that `target` gives on the given platform, under the given
/// casing policy.
pub fn extract_with(target: &TargetDescriptor, is_windows: bool, policy: CasingPolicy) -> (r:
    DiscoveryResult)
    ensures
        r.wf(),
        r@ == extraction_under(target@, is_windows, policy.emit_variants),
        r@.found == target_shows(target@),
{
    let mut out = DiscoveryResult::new();
    out.add_groups(&target.compile_groups);
    out.add_link(&target.link, is_windows, policy);
    out.note_presence(shows_target_library(target));
    proof {
        lemma_extraction_found(target@, is_windows, policy.emit_variants);
    }
    out
}

/// The discovery result that `target` gives on the given platform, with the casing
/// variants of the target library where the target names it.
pub fn extract(target: &TargetDescriptor, is_windows: bool) -> (r: DiscoveryResult)
    ensures
        r.wf(),
        r@ == extraction(target@, is_windows),
        r@.found == target_shows(target@),
{
    extract_with(target, is_windows, CasingPolicy { emit_variants: true })
}

} // verus!
