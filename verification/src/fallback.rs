//! The alternate discovery channel: what a package-registry probe reported, made into
//! a discovery result, and the choice between the two channels.

use crate::directive::DirectiveView;
use crate::result::{
    define_name,
    define_value,
    keys_of,
    lemma_additions_keep_wf,
    DiscoveryResult,
    DiscoveryView,
};
use crate::target::{
    fold_over,
    lemma_fold_keeps_found,
    lemma_fold_step,
    with_includes,
    with_raw_defines,
    with_search_paths,
};
use crate::text::texts;
use vstd::prelude::*;

verus! {

/// What a package-registry probe reported for the target library.
#[derive(Debug, Clone, PartialEq, Eq)]
pub struct ProbeReport {
    pub include_paths: Vec<String>,
    /// Names of the libraries to link.
    pub libraries: Vec<String>,
    pub search_paths: Vec<String>,
    /// Raw definitions, `NAME` or `NAME=VALUE`.
    pub definitions: Vec<String>,
}

/// The mathematical value of a `ProbeReport`.
pub struct ProbeView {
    pub include_paths: Seq<Seq<char>>,
    pub libraries: Seq<Seq<char>>,
    pub search_paths: Seq<Seq<char>>,
    pub definitions: Seq<Seq<char>>,
}

impl View for ProbeReport {
    type V = ProbeView;

    open spec fn view(&self) -> ProbeView {
        ProbeView {
            include_paths: texts(self.include_paths@),
            libraries: texts(self.libraries@),
            search_paths: texts(self.search_paths@),
            definitions: texts(self.definitions@),
        }
    }
}

/// `v` with every name of `names` as a library linked dynamically.
pub open spec fn with_libraries(v: DiscoveryView, names: Seq<Seq<char>>) -> DiscoveryView {
    fold_over(v, names, |a: DiscoveryView, n: Seq<char>| a.with_library(n, false))
}

/// The discovery result that a probe report gives: the library found, with the
/// include paths, search paths, libraries and definitions of the report and no others.
pub open spec fn probed(report: ProbeView) -> DiscoveryView {
    with_raw_defines(
        with_libraries(
            with_search_paths(
                with_includes(DiscoveryView::empty(), report.include_paths),
                report.search_paths,
            ),
            report.libraries,
        ),
        report.definitions,
    ).with_presence(true)
}

/// The result that wins: the structured one where it found the library, else the
/// probe's, whole, where there is one. Nothing of the one enters the other.
pub open spec fn winning(structured: DiscoveryView, probe: Option<ProbeView>) -> Option<
    DiscoveryView,
> {
    if structured.found {
        Some(structured)
    } else {
        match probe {
            Some(report) => Some(probed(report)),
            None => None,
        }
    }
}

/// Whatever wins has found the library.
pub proof fn lemma_winning_is_found(structured: DiscoveryView, probe: Option<ProbeView>)
    ensures
        winning(structured, probe) matches Some(r) ==> r.found,
        winning(structured, probe) is None <==> !structured.found && probe is None,
{
}

/// What a probe report gives is well-formed and has found the library.
pub proof fn lemma_probed_is_found(report: ProbeView)
    ensures
        probed(report).wf(),
        probed(report).found,
{
    let header = |a: DiscoveryView, p: Seq<char>| a.with_include(p);
    let define = |a: DiscoveryView, r: Seq<char>| a.with_raw_define(r);
    let search = |a: DiscoveryView, p: Seq<char>| a.with_search_path(p);
    let library = |a: DiscoveryView, n: Seq<char>| a.with_library(n, false);
    assert forall|a: DiscoveryView, p: Seq<char>| a.wf() implies (#[trigger] header(a, p)).wf()
        && header(a, p).found == a.found by {
        lemma_additions_keep_wf(a, DirectiveView::IncludePath(p));
    }
    assert forall|a: DiscoveryView, p: Seq<char>| a.wf() implies (#[trigger] search(a, p)).wf()
        && search(a, p).found == a.found by {
        lemma_additions_keep_wf(a, DirectiveView::LinkSearchPath(p));
    }
    assert forall|a: DiscoveryView, n: Seq<char>| a.wf() implies (#[trigger] library(a, n)).wf()
        && library(a, n).found == a.found by {
        lemma_additions_keep_wf(a, DirectiveView::LinkLibrary(n, false));
    }
    assert forall|a: DiscoveryView, r: Seq<char>| a.wf() implies (#[trigger] define(a, r)).wf()
        && define(a, r).found == a.found by {
        lemma_additions_keep_wf(a, DirectiveView::Define(define_name(r), define_value(r)));
    }
    let empty = DiscoveryView::empty();
    assert(keys_of(empty.defines) =~= Seq::empty());
    assert(keys_of(empty.libraries) =~= Seq::empty());
    lemma_fold_keeps_found(empty, report.include_paths, header);
    let one = with_includes(empty, report.include_paths);
    lemma_fold_keeps_found(one, report.search_paths, search);
    let two = with_search_paths(one, report.search_paths);
    lemma_fold_keeps_found(two, report.libraries, library);
    let three = with_libraries(two, report.libraries);
    lemma_fold_keeps_found(three, report.definitions, define);
}

impl DiscoveryResult {
    /// Adds every name of `names` as a library linked dynamically.
    pub fn add_libraries(&mut self, names: &Vec<String>)
        requires
            old(self).wf(),
        ensures
            final(self).wf(),
            final(self)@ == with_libraries(old(self)@, texts(names@)),
    {
        let ghost all = texts(names@);
        let ghost step = |a: DiscoveryView, n: Seq<char>| a.with_library(n, false);
        let mut i: usize = 0;
        while i < names.len()
            invariant
                i <= names.len(),
                self.wf(),
                all == texts(names@),
                step == |a: DiscoveryView, n: Seq<char>| a.with_library(n, false),
                self@ == fold_over(old(self)@, all.take(i as int), step),
            decreases names.len() - i,
        {
            proof {
                lemma_fold_step(old(self)@, all, step, i as int);
            }
            self.add_library(names[i].clone(), false);
            i = i + 1;
        }
        proof {
            assert(all.take(names.len() as int) =~= all);
        }
    }
}

/// The discovery result that the probe report gives.
pub fn from_probe(report: &ProbeReport) -> (r: DiscoveryResult)
    ensures
        r.wf(),
        r@ == probed(report@),
        r@.found,
{
    let mut out = DiscoveryResult::new();
    out.add_includes(&report.include_paths);
    out.add_search_paths(&report.search_paths);
    out.add_libraries(&report.libraries);
    out.add_raw_defines(&report.definitions);
    out.note_presence(true);
    out
}

/// The result that wins between the structured discovery and the probe, if either
/// found the library.
pub fn resolve(structured: DiscoveryResult, probe: Option<&ProbeReport>) -> (r: Option<
    DiscoveryResult,
>)
    requires
        structured.wf(),
    ensures
        match r {
            Some(won) => won.wf() && winning(
                structured@,
                match probe {
                    Some(p) => Some(p@),
                    None => None,
                },
            ) == Some(won@),
            None => winning(
                structured@,
                match probe {
                    Some(p) => Some(p@),
                    None => None,
                },
            ) is None,
        },
{
    if structured.found() {
        Some(structured)
    } else {
        match probe {
            Some(report) => Some(from_probe(report)),
            None => None,
        }
    }
}

} // verus!
