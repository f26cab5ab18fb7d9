//! The first values of CSI parameters, kept inline.

use crate::state::first_of;
use vstd::prelude::*;

verus! {

/// A list of CSI parameter values: a `smallvec::SmallVec` with room for eight
/// of them inline.
#[verifier::external_body]
pub struct ParamList {
    values: smallvec::SmallVec<[u16; 8]>,
}

/// The values that a list holds, in order.
pub uninterp spec fn param_values(list: ParamList) -> Seq<u16>;

/// `SmallVec::new`: a list without values.
#[verifier::external_body]
fn params_new() -> (r: ParamList)
    ensures
        param_values(r) == Seq::<u16>::empty(),
{
    ParamList { values: smallvec::SmallVec::new() }
}

/// `SmallVec::push`: appends a value at the end.
#[verifier::external_body]
fn params_push(list: &mut ParamList, value: u16)
    ensures
        param_values(*final(list)) == param_values(*old(list)).push(value),
{
    list.values.push(value);
}

/// `SmallVec::len`: the number of values.
#[verifier::external_body]
pub(crate) fn params_len(list: &ParamList) -> (r: usize)
    ensures
        r == param_values(*list).len(),
{
    list.values.len()
}

/// `SmallVec`'s slice `get`: the value at an index, if there is one.
#[verifier::external_body]
pub(crate) fn params_get(list: &ParamList, i: usize) -> (r: Option<u16>)
    ensures
        r == if i < param_values(*list).len() {
            Some(param_values(*list)[i as int])
        } else {
            None
        },
{
    list.values.get(i).copied()
}

/// What CSI parameters hold.
pub open spec fn params_view(params: Seq<Vec<u16>>) -> Seq<Seq<u16>> {
    Seq::new(params.len(), |i: int| params[i]@)
}

/// The first value of a parameter, or zero.
pub(crate) fn first_value(param: &Vec<u16>) -> (r: u16)
    ensures
        r == first_of(param@),
{
    if param.len() > 0 {
        param[0]
    } else {
        0
    }
}

/// Collects the first value of each parameter, zero where it has none.
pub(crate) fn first_values(params: &[Vec<u16>]) -> (r: ParamList)
    ensures
        param_values(r).len() == params@.len(),
        forall|i: int|
            0 <= i < params@.len() ==> #[trigger] param_values(r)[i] == first_of(params@[i]@),
{
    let mut list = params_new();
    let mut i: usize = 0;
    while i < params.len()
        invariant
            i <= params@.len(),
            param_values(list).len() == i,
            forall|j: int|
                0 <= j < i ==> #[trigger] param_values(list)[j] == first_of(params@[j]@),
        decreases params@.len() - i,
    {
        params_push(&mut list, first_value(&params[i]));
        i = i + 1;
    }
    list
}

/// The value at an index, or zero.
pub(crate) fn value_or_zero(list: &ParamList, i: usize) -> (r: u16)
    ensures
        r == if i < param_values(*list).len() {
            param_values(*list)[i as int]
        } else {
            0
        },
{
    match params_get(list, i) {
        Some(value) => value,
        None => 0,
    }
}

} // verus!
