use vstd::prelude::*;

use arraydeque::ArrayDeque;
use arraydeque::Wrapping;

use crate::types::Price;

verus! {

/// How many closed candles a tracker keeps.
pub const MAX_HISTORY: usize = 5000;

/// Ring buffer of the latest closed candles, kept in an `ArrayDeque` that
/// drops its oldest candle when a new one arrives while it is full.
#[verifier::external_body]
pub struct History {
    deque: Box<ArrayDeque<Price, MAX_HISTORY, Wrapping>>,
}

/// The candles a history holds, oldest first.
pub uninterp spec fn history_items(h: History) -> Seq<Price>;

/// Relies on `ArrayDeque::new`: a new deque is empty.
#[verifier::external_body]
pub(crate) fn history_new() -> (r: History)
    ensures
        history_items(r) == Seq::<Price>::empty(),
{
    History { deque: Box::new(ArrayDeque::new()) }
}

/// Relies on `ArrayDeque::push_back` with wrapping behaviour: the candle goes
/// to the back and, when the deque is full, the front one is dropped.
#[verifier::external_body]
pub(crate) fn history_push(h: &mut History, p: Price)
    ensures
        history_items(*old(h)).len() < MAX_HISTORY ==> history_items(*final(h)) == history_items(
            *old(h),
        ).push(p),
        history_items(*old(h)).len() >= MAX_HISTORY ==> history_items(*final(h)) == history_items(
            *old(h),
        ).drop_first().push(p),
        history_items(*final(h)).len() <= MAX_HISTORY,
{
    let _ = h.deque.push_back(p);
}

/// Relies on `ArrayDeque::clear`: afterwards the deque is empty.
#[verifier::external_body]
pub(crate) fn history_clear(h: &mut History)
    ensures
        history_items(*final(h)) == Seq::<Price>::empty(),
{
    h.deque.clear();
}

/// Relies on `ArrayDeque::iter`: it walks the deque front to back.
#[verifier::external_body]
pub(crate) fn history_to_vec(h: &History) -> (r: Vec<Price>)
    ensures
        r@ == history_items(*h),
{
    h.deque.iter().copied().collect()
}

} // verus!
