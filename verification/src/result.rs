//! The consolidated outcome of a discovery: whether the library was seen, and the
//! include paths, definitions, search paths and libraries that were found, each kept
//! free of duplicates.

use crate::directive::{
    directive_views,
    lemma_directive_views_push,
    ClassifiedDirective,
    DirectiveView,
};
use crate::text::{
    chars_of,
    find_first,
    first_of,
    lemma_first_of,
    owned,
    pair_views,
    same_text,
    slice_of,
    texts,
};
use crate::unique::{index_in, lemma_index_in, lemma_index_in_is, push_if_missing};
use vstd::prelude::*;

verus! {

/// The mathematical value of a `DiscoveryResult`.
pub struct DiscoveryView {
    /// Whether the target library was seen.
    pub found: bool,
    /// Header search directories, in the order in which they were first added.
    pub includes: Seq<Seq<char>>,
    /// Preprocessor definitions, name and value, in the order in which each name was
    /// first added.
    pub defines: Seq<(Seq<char>, Seq<char>)>,
    /// Library search directories, in the order in which they were first added.
    pub search_paths: Seq<Seq<char>>,
    /// Libraries to link, name and static flag, in the order in which each name was
    /// first added.
    pub libraries: Seq<(Seq<char>, bool)>,
}

/// The first components of a sequence of pairs keyed by text.
pub open spec fn keys_of<B>(pairs: Seq<(Seq<char>, B)>) -> Seq<Seq<char>> {
    Seq::new(pairs.len(), |i: int| pairs[i].0)
}

/// What the first pair of `pairs` with the key `key` holds, if there is such a pair.
pub open spec fn value_of<B>(pairs: Seq<(Seq<char>, B)>, key: Seq<char>) -> Option<B> {
    let at = index_in(keys_of(pairs), key);
    if at < pairs.len() {
        Some(pairs[at].1)
    } else {
        None
    }
}

/// The name of a raw definition `NAME` or `NAME=VALUE`: what stands before its first `=`.
pub open spec fn define_name(raw: Seq<char>) -> Seq<char> {
    raw.subrange(0, first_of(raw, '='))
}

/// The value of a raw definition: what stands after its first `=`, and `1` where it
/// has none.
pub open spec fn define_value(raw: Seq<char>) -> Seq<char> {
    if first_of(raw, '=') < raw.len() {
        raw.subrange(first_of(raw, '=') + 1, raw.len() as int)
    } else {
        "1"@
    }
}

/// The path or the name that a directive is about.
pub open spec fn key_of(d: DirectiveView) -> Seq<char> {
    match d {
        DirectiveView::IncludePath(p) => p,
        DirectiveView::Define(n, _) => n,
        DirectiveView::LinkSearchPath(p) => p,
        DirectiveView::LinkLibrary(n, _) => n,
    }
}

/// Two directives are of the same kind.
pub open spec fn same_kind(a: DirectiveView, b: DirectiveView) -> bool {
    ||| a is IncludePath && b is IncludePath
    ||| a is Define && b is Define
    ||| a is LinkSearchPath && b is LinkSearchPath
    ||| a is LinkLibrary && b is LinkLibrary
}

/// The include directives for `paths`, in order.
pub open spec fn include_directives(paths: Seq<Seq<char>>) -> Seq<DirectiveView> {
    Seq::new(paths.len(), |i: int| DirectiveView::IncludePath(paths[i]))
}

/// The definition directives for `defines`, in order.
pub open spec fn define_directives(defines: Seq<(Seq<char>, Seq<char>)>) -> Seq<DirectiveView> {
    Seq::new(defines.len(), |i: int| DirectiveView::Define(defines[i].0, defines[i].1))
}

/// The search-path directives for `paths`, in order.
pub open spec fn search_directives(paths: Seq<Seq<char>>) -> Seq<DirectiveView> {
    Seq::new(paths.len(), |i: int| DirectiveView::LinkSearchPath(paths[i]))
}

/// The library directives for `libraries`, in order.
pub open spec fn library_directives(libraries: Seq<(Seq<char>, bool)>) -> Seq<DirectiveView> {
    Seq::new(libraries.len(), |i: int| DirectiveView::LinkLibrary(libraries[i].0, libraries[i].1))
}

impl DiscoveryView {
    /// Nothing found.
    pub open spec fn empty() -> DiscoveryView {
        DiscoveryView {
            found: false,
            includes: Seq::empty(),
            defines: Seq::empty(),
            search_paths: Seq::empty(),
            libraries: Seq::empty(),
        }
    }

    /// No path stands twice, no definition name twice, no library name twice.
    pub open spec fn wf(self) -> bool {
        &&& self.includes.no_duplicates()
        &&& keys_of(self.defines).no_duplicates()
        &&& self.search_paths.no_duplicates()
        &&& keys_of(self.libraries).no_duplicates()
    }

    /// The library counts as seen from now on if `seen` holds.
    pub open spec fn with_presence(self, seen: bool) -> DiscoveryView {
        DiscoveryView { found: self.found || seen, ..self }
    }

    /// `path` is added to the include paths unless it is there.
    pub open spec fn with_include(self, path: Seq<char>) -> DiscoveryView {
        DiscoveryView { includes: push_if_missing(self.includes, path), ..self }
    }

    /// `name` is defined as `value`: a definition of that name is replaced where it
    /// stands, a new one is added at the end.
    pub open spec fn with_define(self, name: Seq<char>, value: Seq<char>) -> DiscoveryView {
        let at = index_in(keys_of(self.defines), name);
        if at < self.defines.len() {
            DiscoveryView { defines: self.defines.update(at, (name, value)), ..self }
        } else {
            DiscoveryView { defines: self.defines.push((name, value)), ..self }
        }
    }

    /// The raw definition `NAME` or `NAME=VALUE` is added; an empty one adds nothing.
    pub open spec fn with_raw_define(self, raw: Seq<char>) -> DiscoveryView {
        if raw.len() == 0 {
            self
        } else {
            self.with_define(define_name(raw), define_value(raw))
        }
    }

    /// `path` is added to the library search paths unless it is there.
    pub open spec fn with_search_path(self, path: Seq<char>) -> DiscoveryView {
        DiscoveryView { search_paths: push_if_missing(self.search_paths, path), ..self }
    }

    /// The library `name` is added unless a library of that name is there; the first
    /// static flag given for a name stays.
    pub open spec fn with_library(self, name: Seq<char>, is_static: bool) -> DiscoveryView {
        if keys_of(self.libraries).contains(name) {
            self
        } else {
            DiscoveryView { libraries: self.libraries.push((name, is_static)), ..self }
        }
    }

    /// The directive `d` is added to the set it belongs to.
    pub open spec fn with_directive(self, d: DirectiveView) -> DiscoveryView {
        match d {
            DirectiveView::IncludePath(p) => self.with_include(p),
            DirectiveView::Define(n, v) => self.with_define(n, v),
            DirectiveView::LinkSearchPath(p) => self.with_search_path(p),
            DirectiveView::LinkLibrary(n, s) => self.with_library(n, s),
        }
    }

    /// The directives `list` are added one after the other.
    pub open spec fn with_directives(self, list: Seq<DirectiveView>) -> DiscoveryView
        decreases list.len(),
    {
        if list.len() == 0 {
            self
        } else {
            self.with_directives(list.drop_last()).with_directive(list.last())
        }
    }

    /// The directives handed to the compiler and linker invocation: include paths,
    /// definitions, search paths, libraries, each set in its own order.
    pub open spec fn emitted(self) -> Seq<DirectiveView> {
        include_directives(self.includes) + define_directives(self.defines) + search_directives(
            self.search_paths,
        ) + library_directives(self.libraries)
    }
}

/// Every way of adding to a well-formed result leaves it well-formed.
pub proof fn lemma_additions_keep_wf(v: DiscoveryView, d: DirectiveView)
    requires
        v.wf(),
    ensures
        v.with_directive(d).wf(),
        v.with_directive(d).found == v.found,
{
    match d {
        DirectiveView::IncludePath(p) => {
            crate::unique::lemma_push_if_missing(v.includes, p);
        },
        DirectiveView::LinkSearchPath(p) => {
            crate::unique::lemma_push_if_missing(v.search_paths, p);
        },
        DirectiveView::Define(n, x) => {
            let keys = keys_of(v.defines);
            lemma_index_in(keys, n);
            let at = index_in(keys, n);
            let after = v.with_define(n, x);
            if at < v.defines.len() {
                assert(keys_of(after.defines) =~= keys);
            } else {
                assert(keys_of(after.defines) =~= keys.push(n));
            }
        },
        DirectiveView::LinkLibrary(n, s) => {
            let keys = keys_of(v.libraries);
            if !keys.contains(n) {
                assert(keys_of(v.with_library(n, s).libraries) =~= keys.push(n));
            }
        },
    }
}

/// Adding a sequence of directives to a well-formed result leaves it well-formed.
pub proof fn lemma_with_directives_keeps_wf(v: DiscoveryView, list: Seq<DirectiveView>)
    requires
        v.wf(),
    ensures
        v.with_directives(list).wf(),
        v.with_directives(list).found == v.found,
    decreases list.len(),
{
    if list.len() > 0 {
        lemma_with_directives_keeps_wf(v, list.drop_last());
        lemma_additions_keep_wf(v.with_directives(list.drop_last()), list.last());
    }
}

/// No two directives emitted for a well-formed result are of the same kind and of the
/// same path or name: no path is emitted twice, no name defined twice, no library
/// linked twice.
pub proof fn lemma_emitted_keys_are_unique(v: DiscoveryView)
    requires
        v.wf(),
    ensures
        forall|i: int, j: int|
            0 <= i < v.emitted().len() && 0 <= j < v.emitted().len() && i != j && same_kind(
                #[trigger] v.emitted()[i],
                #[trigger] v.emitted()[j],
            ) ==> key_of(v.emitted()[i]) != key_of(v.emitted()[j]),
{
    let e = v.emitted();
    let a = v.includes.len() as int;
    let b = a + v.defines.len();
    let c = b + v.search_paths.len();
    assert forall|i: int, j: int|
        0 <= i < e.len() && 0 <= j < e.len() && i != j && same_kind(
            #[trigger] e[i],
            #[trigger] e[j],
        ) implies key_of(e[i]) != key_of(e[j]) by {
        lemma_emitted_at(v, i);
        lemma_emitted_at(v, j);
    }
}

/// What stands at the index `i` of the directives emitted for `v`.
proof fn lemma_emitted_at(v: DiscoveryView, i: int)
    requires
        0 <= i < v.emitted().len(),
    ensures
        ({
            let a = v.includes.len() as int;
            let b = a + v.defines.len();
            let c = b + v.search_paths.len();
            if i < a {
                v.emitted()[i] == DirectiveView::IncludePath(v.includes[i])
            } else if i < b {
                v.emitted()[i] == DirectiveView::Define(v.defines[i - a].0, v.defines[i - a].1)
                    && keys_of(v.defines)[i - a] == v.defines[i - a].0
            } else if i < c {
                v.emitted()[i] == DirectiveView::LinkSearchPath(v.search_paths[i - b])
            } else {
                v.emitted()[i] == DirectiveView::LinkLibrary(
                    v.libraries[i - c].0,
                    v.libraries[i - c].1,
                ) && keys_of(v.libraries)[i - c] == v.libraries[i - c].0
            }
        }),
{
}

/// No directive stands twice among those emitted for a well-formed result.
pub proof fn lemma_emitted_no_duplicates(v: DiscoveryView)
    requires
        v.wf(),
    ensures
        v.emitted().no_duplicates(),
{
    lemma_emitted_keys_are_unique(v);
}

/// An include path that is added twice is emitted once: the second addition changes
/// nothing, and exactly one emitted directive is that include path.
pub proof fn lemma_include_added_twice_is_emitted_once(v: DiscoveryView, path: Seq<char>)
    requires
        v.wf(),
    ensures
        v.with_include(path).with_include(path) == v.with_include(path),
        v.with_include(path).with_include(path).emitted().contains(
            DirectiveView::IncludePath(path),
        ),
        forall|i: int, j: int|
            0 <= i < v.with_include(path).emitted().len() && 0 <= j < v.with_include(
                path,
            ).emitted().len() && #[trigger] v.with_include(path).emitted()[i]
                == DirectiveView::IncludePath(path) && #[trigger] v.with_include(path).emitted()[j]
                == DirectiveView::IncludePath(path) ==> i == j,
{
    let once = v.with_include(path);
    crate::unique::lemma_push_if_missing_twice(v.includes, path);
    crate::unique::lemma_push_if_missing(v.includes, path);
    lemma_emitted_no_duplicates(once);
    let at = choose|i: int| 0 <= i < once.includes.len() && once.includes[i] == path;
    assert(once.emitted()[at] == DirectiveView::IncludePath(path));
}

/// The consolidated outcome of a discovery.
#[derive(Debug, Clone, PartialEq, Eq)]
pub struct DiscoveryResult {
    found: bool,
    includes: Vec<String>,
    define_names: Vec<String>,
    define_values: Vec<String>,
    search_paths: Vec<String>,
    library_names: Vec<String>,
    library_static: Vec<bool>,
}

/// The index of the first string of `list` that holds the text of `s`; the length of
/// `list` where none does.
fn position_of(list: &Vec<String>, s: &String) -> (r: usize)
    ensures
        r == index_in(texts(list@), s@),
        r <= list.len(),
{
    let mut i: usize = 0;
    while i < list.len() && !same_text(&list[i], s)
        invariant
            i <= list.len(),
            forall|k: int| 0 <= k < i ==> texts(list@)[k] != s@,
        decreases list.len() - i,
    {
        i = i + 1;
    }
    proof {
        lemma_index_in_is(texts(list@), s@, i as int);
    }
    i
}

/// The name and the value of the raw definition `raw`.
pub fn parse_define(raw: &str) -> (r: (String, String))
    ensures
        r.0@ == define_name(raw@),
        r.1@ == define_value(raw@),
{
    let chars = chars_of(raw);
    let at = find_first(&chars, '=');
    proof {
        lemma_first_of(raw@, '=');
    }
    if at < chars.len() {
        (slice_of(raw, 0, at), slice_of(raw, at + 1, chars.len()))
    } else {
        (owned(raw), owned("1"))
    }
}

impl View for DiscoveryResult {
    type V = DiscoveryView;

    closed spec fn view(&self) -> DiscoveryView {
        DiscoveryView {
            found: self.found,
            includes: texts(self.includes@),
            defines: Seq::new(
                self.define_names@.len(),
                |i: int| (self.define_names@[i]@, self.define_values@[i]@),
            ),
            search_paths: texts(self.search_paths@),
            libraries: Seq::new(
                self.library_names@.len(),
                |i: int| (self.library_names@[i]@, self.library_static@[i]),
            ),
        }
    }
}

impl DiscoveryResult {
    /// The value is well-formed: each name has its value, and no path or name stands
    /// twice.
    pub closed spec fn wf(&self) -> bool {
        &&& self.define_names@.len() == self.define_values@.len()
        &&& self.library_names@.len() == self.library_static@.len()
        &&& self@.wf()
    }

    /// A well-formed result has a well-formed value.
    pub proof fn lemma_wf(&self)
        requires
            self.wf(),
        ensures
            self@.wf(),
    {
    }

    /// A result with nothing found.
    pub fn new() -> (r: DiscoveryResult)
        ensures
            r.wf(),
            r@ == DiscoveryView::empty(),
    {
        let r = DiscoveryResult {
            found: false,
            includes: Vec::new(),
            define_names: Vec::new(),
            define_values: Vec::new(),
            search_paths: Vec::new(),
            library_names: Vec::new(),
            library_static: Vec::new(),
        };
        proof {
            assert(r@.includes =~= Seq::empty());
            assert(r@.defines =~= Seq::empty());
            assert(r@.search_paths =~= Seq::empty());
            assert(r@.libraries =~= Seq::empty());
            assert(keys_of(r@.defines) =~= Seq::empty());
            assert(keys_of(r@.libraries) =~= Seq::empty());
        }
        r
    }

    /// Whether the target library was seen.
    pub fn found(&self) -> (r: bool)
        ensures
            r == self@.found,
    {
        self.found
    }

    /// The include paths, in the order in which each was first added.
    pub fn includes(&self) -> (r: &Vec<String>)
        ensures
            texts(r@) == self@.includes,
    {
        &self.includes
    }

    /// The library search paths, in the order in which each was first added.
    pub fn search_paths(&self) -> (r: &Vec<String>)
        ensures
            texts(r@) == self@.search_paths,
    {
        &self.search_paths
    }

    /// The value that `name` is defined as, if it is defined.
    pub fn define(&self, name: &str) -> (r: Option<&String>)
        requires
            self.wf(),
        ensures
            match r {
                Some(value) => value_of(self@.defines, name@) == Some(value@),
                None => value_of(self@.defines, name@) is None,
            },
    {
        let wanted = owned(name);
        let at = position_of(&self.define_names, &wanted);
        proof {
            assert(keys_of(self@.defines) =~= texts(self.define_names@));
        }
        if at < self.define_names.len() {
            Some(&self.define_values[at])
        } else {
            None
        }
    }

    /// The definitions, name and value, in the order in which each name was first
    /// added.
    pub fn defines(&self) -> (r: Vec<(String, String)>)
        requires
            self.wf(),
        ensures
            pair_views(r@) == self@.defines,
    {
        let mut out: Vec<(String, String)> = Vec::new();
        let mut i: usize = 0;
        while i < self.define_names.len()
            invariant
                i <= self.define_names.len(),
                self.wf(),
                out@.len() == i,
                pair_views(out@) =~= self@.defines.take(i as int),
            decreases self.define_names.len() - i,
        {
            let ghost before = out@;
            out.push((self.define_names[i].clone(), self.define_values[i].clone()));
            proof {
                assert forall|k: int| 0 <= k <= i implies pair_views(out@)[k]
                    == self@.defines.take(i + 1)[k] by {
                    if k < i {
                        assert(pair_views(before)[k] == self@.defines.take(i as int)[k]);
                    }
                }
            }
            i = i + 1;
        }
        out
    }

    /// The libraries to link, name and static flag, in the order in which each name
    /// was first added.
    pub fn libraries(&self) -> (r: Vec<(String, bool)>)
        requires
            self.wf(),
        ensures
            r@.len() == self@.libraries.len(),
            forall|i: int|
                0 <= i < r@.len() ==> (#[trigger] r@[i]).0@ == self@.libraries[i].0 && r@[i].1
                    == self@.libraries[i].1,
    {
        let mut out: Vec<(String, bool)> = Vec::new();
        let mut i: usize = 0;
        while i < self.library_names.len()
            invariant
                i <= self.library_names.len(),
                self.wf(),
                out@.len() == i,
                forall|k: int|
                    0 <= k < i ==> (#[trigger] out@[k]).0@ == self@.libraries[k].0 && out@[k].1
                        == self@.libraries[k].1,
            decreases self.library_names.len() - i,
        {
            out.push((self.library_names[i].clone(), self.library_static[i]));
            i = i + 1;
        }
        out
    }

    /// Whether the library `name` is linked statically, if it is to be linked at all.
    pub fn library(&self, name: &str) -> (r: Option<bool>)
        requires
            self.wf(),
        ensures
            r == value_of(self@.libraries, name@),
    {
        let wanted = owned(name);
        let at = position_of(&self.library_names, &wanted);
        proof {
            assert(keys_of(self@.libraries) =~= texts(self.library_names@));
        }
        if at < self.library_names.len() {
            Some(self.library_static[at])
        } else {
            None
        }
    }

    /// Records that the library was seen, if `seen` holds.
    pub fn note_presence(&mut self, seen: bool)
        requires
            old(self).wf(),
        ensures
            final(self).wf(),
            final(self)@ == old(self)@.with_presence(seen),
    {
        self.found = self.found || seen;
    }

    /// Adds an include path, unless it is there.
    pub fn add_include(&mut self, path: String)
        requires
            old(self).wf(),
        ensures
            final(self).wf(),
            final(self)@ == old(self)@.with_include(path@),
    {
        let at = position_of(&self.includes, &path);
        proof {
            lemma_index_in(texts(self.includes@), path@);
            lemma_additions_keep_wf(self@, DirectiveView::IncludePath(path@));
        }
        if at == self.includes.len() {
            self.includes.push(path);
            proof {
                assert(texts(self.includes@) =~= texts(old(self).includes@).push(path@));
            }
        }
    }

    /// Adds a library search path, unless it is there.
    pub fn add_search_path(&mut self, path: String)
        requires
            old(self).wf(),
        ensures
            final(self).wf(),
            final(self)@ == old(self)@.with_search_path(path@),
    {
        let at = position_of(&self.search_paths, &path);
        proof {
            lemma_index_in(texts(self.search_paths@), path@);
            lemma_additions_keep_wf(self@, DirectiveView::LinkSearchPath(path@));
        }
        if at == self.search_paths.len() {
            self.search_paths.push(path);
            proof {
                assert(texts(self.search_paths@) =~= texts(old(self).search_paths@).push(path@));
            }
        }
    }

    /// Defines `name` as `value`, in place of an earlier definition of that name.
    pub fn add_define(&mut self, name: String, value: String)
        requires
            old(self).wf(),
        ensures
            final(self).wf(),
            final(self)@ == old(self)@.with_define(name@, value@),
    {
        let at = position_of(&self.define_names, &name);
        proof {
            assert(keys_of(self@.defines) =~= texts(self.define_names@));
            lemma_index_in(texts(self.define_names@), name@);
            lemma_additions_keep_wf(self@, DirectiveView::Define(name@, value@));
        }
        if at < self.define_names.len() {
            self.define_values.set(at, value);
            proof {
                assert(self@.defines =~= old(self)@.defines.update(at as int, (name@, value@)));
            }
        } else {
            self.define_names.push(name);
            self.define_values.push(value);
            proof {
                assert(self@.defines =~= old(self)@.defines.push((name@, value@)));
            }
        }
    }

    /// Adds the raw definition `NAME` or `NAME=VALUE`; an empty one adds nothing.
    pub fn add_raw_define(&mut self, raw: &str)
        requires
            old(self).wf(),
        ensures
            final(self).wf(),
            final(self)@ == old(self)@.with_raw_define(raw@),
    {
        if raw.unicode_len() > 0 {
            let (name, value) = parse_define(raw);
            self.add_define(name, value);
        }
    }

    /// Adds a library to link, unless one of that name is there.
    pub fn add_library(&mut self, name: String, is_static: bool)
        requires
            old(self).wf(),
        ensures
            final(self).wf(),
            final(self)@ == old(self)@.with_library(name@, is_static),
    {
        let at = position_of(&self.library_names, &name);
        proof {
            assert(keys_of(self@.libraries) =~= texts(self.library_names@));
            lemma_index_in(texts(self.library_names@), name@);
            lemma_additions_keep_wf(self@, DirectiveView::LinkLibrary(name@, is_static));
        }
        if at == self.library_names.len() {
            self.library_names.push(name);
            self.library_static.push(is_static);
            proof {
                assert(self@.libraries =~= old(self)@.libraries.push((name@, is_static)));
            }
        }
    }

    /// Adds the directive `d` to the set it belongs to.
    pub fn absorb(&mut self, d: &ClassifiedDirective)
        requires
            old(self).wf(),
        ensures
            final(self).wf(),
            final(self)@ == old(self)@.with_directive(d@),
    {
        match d {
            ClassifiedDirective::IncludePath(p) => self.add_include(p.clone()),
            ClassifiedDirective::Define(n, v) => self.add_define(n.clone(), v.clone()),
            ClassifiedDirective::LinkSearchPath(p) => self.add_search_path(p.clone()),
            ClassifiedDirective::LinkLibrary(n, s) => self.add_library(n.clone(), *s),
        }
    }

    /// Adds the directives of `list`, one after the other.
    pub fn absorb_all(&mut self, list: &Vec<ClassifiedDirective>)
        requires
            old(self).wf(),
        ensures
            final(self).wf(),
            final(self)@ == old(self)@.with_directives(directive_views(list@)),
    {
        let ghost all = directive_views(list@);
        let mut i: usize = 0;
        while i < list.len()
            invariant
                i <= list.len(),
                self.wf(),
                all == directive_views(list@),
                self@ == old(self)@.with_directives(all.take(i as int)),
            decreases list.len() - i,
        {
            self.absorb(&list[i]);
            proof {
                assert(all.take(i + 1).drop_last() =~= all.take(i as int));
            }
            i = i + 1;
        }
        proof {
            assert(all.take(list.len() as int) =~= all);
        }
    }

    /// The directives for the compiler and linker invocation, none twice.
    pub fn emit(&self) -> (r: Vec<ClassifiedDirective>)
        requires
            self.wf(),
        ensures
            directive_views(r@) == self@.emitted(),
            directive_views(r@).no_duplicates(),
    {
        let mut out: Vec<ClassifiedDirective> = Vec::new();
        let ghost v = self@;
        let mut i: usize = 0;
        while i < self.includes.len()
            invariant
                i <= self.includes.len(),
                v == self@,
                directive_views(out@) == include_directives(v.includes.take(i as int)),
            decreases self.includes.len() - i,
        {
            proof {
                lemma_directive_views_push(
                    out@,
                    ClassifiedDirective::IncludePath(self.includes@[i as int]),
                );
                assert(include_directives(v.includes.take(i + 1)) =~= include_directives(
                    v.includes.take(i as int),
                ).push(DirectiveView::IncludePath(v.includes[i as int])));
            }
            out.push(ClassifiedDirective::IncludePath(self.includes[i].clone()));
            i = i + 1;
        }
        assert(v.includes.take(i as int) =~= v.includes);
        let ghost first = directive_views(out@);
        i = 0;
        while i < self.define_names.len()
            invariant
                i <= self.define_names.len(),
                self.wf(),
                v == self@,
                directive_views(out@) == first + define_directives(v.defines.take(i as int)),
            decreases self.define_names.len() - i,
        {
            proof {
                lemma_directive_views_push(
                    out@,
                    ClassifiedDirective::Define(
                        self.define_names@[i as int],
                        self.define_values@[i as int],
                    ),
                );
                assert(first + define_directives(v.defines.take(i + 1)) =~= (first
                    + define_directives(v.defines.take(i as int))).push(
                    DirectiveView::Define(v.defines[i as int].0, v.defines[i as int].1),
                ));
            }
            out.push(
                ClassifiedDirective::Define(
                    self.define_names[i].clone(),
                    self.define_values[i].clone(),
                ),
            );
            i = i + 1;
        }
        assert(v.defines.take(i as int) =~= v.defines);
        let ghost second = directive_views(out@);
        i = 0;
        while i < self.search_paths.len()
            invariant
                i <= self.search_paths.len(),
                v == self@,
                directive_views(out@) == second + search_directives(v.search_paths.take(i as int)),
            decreases self.search_paths.len() - i,
        {
            proof {
                lemma_directive_views_push(
                    out@,
                    ClassifiedDirective::LinkSearchPath(self.search_paths@[i as int]),
                );
                assert(second + search_directives(v.search_paths.take(i + 1)) =~= (second
                    + search_directives(v.search_paths.take(i as int))).push(
                    DirectiveView::LinkSearchPath(v.search_paths[i as int]),
                ));
            }
            out.push(ClassifiedDirective::LinkSearchPath(self.search_paths[i].clone()));
            i = i + 1;
        }
        assert(v.search_paths.take(i as int) =~= v.search_paths);
        let ghost third = directive_views(out@);
        i = 0;
        while i < self.library_names.len()
            invariant
                i <= self.library_names.len(),
                self.wf(),
                v == self@,
                directive_views(out@) == third + library_directives(v.libraries.take(i as int)),
            decreases self.library_names.len() - i,
        {
            proof {
                lemma_directive_views_push(
                    out@,
                    ClassifiedDirective::LinkLibrary(
                        self.library_names@[i as int],
                        self.library_static@[i as int],
                    ),
                );
                assert(third + library_directives(v.libraries.take(i + 1)) =~= (third
                    + library_directives(v.libraries.take(i as int))).push(
                    DirectiveView::LinkLibrary(v.libraries[i as int].0, v.libraries[i as int].1),
                ));
            }
            out.push(
                ClassifiedDirective::LinkLibrary(
                    self.library_names[i].clone(),
                    self.library_static[i],
                ),
            );
            i = i + 1;
        }
        proof {
            assert(v.libraries.take(i as int) =~= v.libraries);
            lemma_emitted_no_duplicates(v);
        }
        out
    }
}

} // verus!
