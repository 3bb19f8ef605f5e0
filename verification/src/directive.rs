//! The normalized directives handed to the compiler and linker invocation.

use crate::text::{owned, same_text};
use vstd::prelude::*;

verus! {

/// One instruction for the downstream compiler or linker invocation.
#[derive(Debug, Clone, PartialEq, Eq)]
pub enum ClassifiedDirective {
    /// Add a directory to the header search path.
    IncludePath(String),
    /// Define a preprocessor symbol, by name and value.
    Define(String, String),
    /// Add a directory to the library search path.
    LinkSearchPath(String),
    /// Link a library by name; the flag says whether it is linked statically.
    LinkLibrary(String, bool),
}

/// The mathematical value of a `ClassifiedDirective`.
pub enum DirectiveView {
    IncludePath(Seq<char>),
    Define(Seq<char>, Seq<char>),
    LinkSearchPath(Seq<char>),
    LinkLibrary(Seq<char>, bool),
}

impl View for ClassifiedDirective {
    type V = DirectiveView;

    open spec fn view(&self) -> DirectiveView {
        match self {
            ClassifiedDirective::IncludePath(p) => DirectiveView::IncludePath(p@),
            ClassifiedDirective::Define(n, v) => DirectiveView::Define(n@, v@),
            ClassifiedDirective::LinkSearchPath(p) => DirectiveView::LinkSearchPath(p@),
            ClassifiedDirective::LinkLibrary(n, s) => DirectiveView::LinkLibrary(n@, *s),
        }
    }
}

/// The values of a sequence of directives, in order.
pub open spec fn directive_views(v: Seq<ClassifiedDirective>) -> Seq<DirectiveView> {
    Seq::new(v.len(), |i: int| v[i]@)
}

/// Pushing a directive pushes its value.
pub proof fn lemma_directive_views_push(v: Seq<ClassifiedDirective>, d: ClassifiedDirective)
    ensures
        directive_views(v.push(d)) == directive_views(v).push(d@),
{
    assert(directive_views(v.push(d)) =~= directive_views(v).push(d@));
}

impl ClassifiedDirective {
    /// Whether two directives have the same value.
    pub fn same_as(&self, other: &ClassifiedDirective) -> (r: bool)
        ensures
            r == (self@ == other@),
    {
        match (self, other) {
            (ClassifiedDirective::IncludePath(a), ClassifiedDirective::IncludePath(b)) => {
                same_text(a, b)
            },
            (ClassifiedDirective::Define(a, x), ClassifiedDirective::Define(b, y)) => {
                same_text(a, b) && same_text(x, y)
            },
            (ClassifiedDirective::LinkSearchPath(a), ClassifiedDirective::LinkSearchPath(b)) => {
                same_text(a, b)
            },
            (ClassifiedDirective::LinkLibrary(a, x), ClassifiedDirective::LinkLibrary(b, y)) => {
                same_text(a, b) && *x == *y
            },
            _ => false,
        }
    }
}

/// The line that tells the build system of a directive.
pub open spec fn rendered(d: DirectiveView) -> Seq<char> {
    match d {
        DirectiveView::IncludePath(p) => "cargo:include="@ + p,
        DirectiveView::Define(n, v) => "cargo:rustc-cfg=quest_def=\""@ + n + "="@ + v + "\""@,
        DirectiveView::LinkSearchPath(p) => "cargo:rustc-link-search=native="@ + p,
        DirectiveView::LinkLibrary(n, is_static) => if is_static {
            "cargo:rustc-link-lib=static="@ + n
        } else {
            "cargo:rustc-link-lib="@ + n
        },
    }
}

/// The line that tells the build system of the directive `d`.
pub fn render(d: &ClassifiedDirective) -> (r: String)
    ensures
        r@ == rendered(d@),
{
    match d {
        ClassifiedDirective::IncludePath(p) => {
            let mut out = owned("cargo:include=");
            out.append(p.as_str());
            out
        },
        ClassifiedDirective::Define(n, v) => {
            let mut out = owned("cargo:rustc-cfg=quest_def=\"");
            out.append(n.as_str());
            out.append("=");
            out.append(v.as_str());
            out.append("\"");
            out
        },
        ClassifiedDirective::LinkSearchPath(p) => {
            let mut out = owned("cargo:rustc-link-search=native=");
            out.append(p.as_str());
            out
        },
        ClassifiedDirective::LinkLibrary(n, is_static) => {
            let mut out = if *is_static {
                owned("cargo:rustc-link-lib=static=")
            } else {
                owned("cargo:rustc-link-lib=")
            };
            out.append(n.as_str());
            out
        },
    }
}

/// Whether a directive of the value of `d` stands in `list`.
pub fn holds_directive(list: &Vec<ClassifiedDirective>, d: &ClassifiedDirective) -> (r: bool)
    ensures
        r == directive_views(list@).contains(d@),
{
    let mut i: usize = 0;
    while i < list.len()
        invariant
            i <= list.len(),
            forall|k: int| 0 <= k < i ==> directive_views(list@)[k] != d@,
        decreases list.len() - i,
    {
        if list[i].same_as(d) {
            proof {
                assert(directive_views(list@)[i as int] == d@);
            }
            return true;
        }
        i = i + 1;
    }
    false
}

} // verus!
