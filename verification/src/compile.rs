//! The definitions with which the binding sources are compiled: those that the
//! library's headers need, each with a value to fall back on, and whatever else the
//! discovery found.

use crate::result::{value_of, DiscoveryResult};
use crate::text::{owned, pair_views, same_text};
use vstd::prelude::*;

verus! {

/// The name is one of the definitions that the headers need.
pub open spec fn is_required(name: Seq<char>) -> bool {
    name == "COMPILE_MPI"@ || name == "COMPILE_OPENMP"@ || name == "COMPILE_CUDA"@ || name
        == "COMPILE_CUQUANTUM"@ || name == "FLOAT_PRECISION"@
}

/// The definition `name` with the value found for it, or with `fallback` where none
/// was found.
pub open spec fn with_fallback(
    defines: Seq<(Seq<char>, Seq<char>)>,
    name: Seq<char>,
    fallback: Seq<char>,
) -> (Seq<char>, Seq<char>) {
    match value_of(defines, name) {
        Some(value) => (name, value),
        None => (name, fallback),
    }
}

/// The definitions that the headers need, in a fixed order.
pub open spec fn required_definitions(defines: Seq<(Seq<char>, Seq<char>)>) -> Seq<
    (Seq<char>, Seq<char>),
> {
    seq![
        with_fallback(defines, "COMPILE_MPI"@, "0"@),
        with_fallback(defines, "COMPILE_OPENMP"@, "0"@),
        with_fallback(defines, "COMPILE_CUDA"@, "0"@),
        with_fallback(defines, "COMPILE_CUQUANTUM"@, "0"@),
        with_fallback(defines, "FLOAT_PRECISION"@, "2"@),
    ]
}

/// The definitions of `defines` that the headers do not need, in order.
pub open spec fn other_definitions(defines: Seq<(Seq<char>, Seq<char>)>) -> Seq<
    (Seq<char>, Seq<char>),
>
    decreases defines.len(),
{
    if defines.len() == 0 {
        Seq::empty()
    } else if is_required(defines.last().0) {
        other_definitions(defines.drop_last())
    } else {
        other_definitions(defines.drop_last()).push(defines.last())
    }
}

/// The definitions for the compilation: the required ones first, then the others.
pub open spec fn compile_definitions(defines: Seq<(Seq<char>, Seq<char>)>) -> Seq<
    (Seq<char>, Seq<char>),
> {
    required_definitions(defines) + other_definitions(defines)
}

/// Whether the name is one of the definitions that the headers need.
pub fn is_required_name(name: &String) -> (r: bool)
    ensures
        r == is_required(name@),
{
    let mpi = owned("COMPILE_MPI");
    let openmp = owned("COMPILE_OPENMP");
    let cuda = owned("COMPILE_CUDA");
    let cuquantum = owned("COMPILE_CUQUANTUM");
    let precision = owned("FLOAT_PRECISION");
    same_text(name, &mpi) || same_text(name, &openmp) || same_text(name, &cuda) || same_text(
        name,
        &cuquantum,
    ) || same_text(name, &precision)
}

fn push_required(
    out: &mut Vec<(String, String)>,
    result: &DiscoveryResult,
    name: &str,
    fallback: &str,
)
    requires
        result.wf(),
    ensures
        pair_views(final(out)@) == pair_views(old(out)@).push(
            with_fallback(result@.defines, name@, fallback@),
        ),
{
    let value = match result.define(name) {
        Some(value) => value.clone(),
        None => owned(fallback),
    };
    out.push((owned(name), value));
}

/// The definitions with which to compile against what `result` holds.
pub fn definitions_for_compile(result: &DiscoveryResult) -> (r: Vec<(String, String)>)
    requires
        result.wf(),
    ensures
        pair_views(r@) == compile_definitions(result@.defines),
{
    let mut out: Vec<(String, String)> = Vec::new();
    push_required(&mut out, result, "COMPILE_MPI", "0");
    push_required(&mut out, result, "COMPILE_OPENMP", "0");
    push_required(&mut out, result, "COMPILE_CUDA", "0");
    push_required(&mut out, result, "COMPILE_CUQUANTUM", "0");
    push_required(&mut out, result, "FLOAT_PRECISION", "2");
    let defines = result.defines();
    let ghost all = result@.defines;
    let ghost first = pair_views(out@);
    let mut i: usize = 0;
    while i < defines.len()
        invariant
            i <= defines.len(),
            all == pair_views(defines@),
            pair_views(out@) == first + other_definitions(all.take(i as int)),
        decreases defines.len() - i,
    {
        proof {
            assert(all.take(i + 1).drop_last() =~= all.take(i as int));
            assert(all.take(i + 1).last() == all[i as int]);
        }
        if !is_required_name(&defines[i].0) {
            let ghost before = out@;
            out.push((defines[i].0.clone(), defines[i].1.clone()));
            proof {
                assert(pair_views(out@) =~= pair_views(before).push(all[i as int]));
                assert(first + other_definitions(all.take(i + 1)) =~= (first + other_definitions(
                    all.take(i as int),
                )).push(all[i as int]));
            }
        }
        i = i + 1;
    }
    proof {
        assert(all.take(defines.len() as int) =~= all);
    }
    out
}

} // verus!
