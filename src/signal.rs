use vstd::prelude::*;

use crate::history::{
    History, MAX_HISTORY, history_clear, history_items, history_new, history_push, history_to_vec,
};
use crate::timeframe::{TimeFrame, next_boundary};
use crate::types::{IndicatorData, IndicatorKind, Price, Value};

verus! {

/// A stateful indicator filter. Readings before the close of a candle are
/// provisional; the one at the close is committed.
pub trait Indicator: Sized {
    /// A fresh filter for the given kind and parameters.
    fn for_kind(kind: IndicatorKind) -> Self;

    fn update_before_close(&mut self, price: Price);

    fn update_after_close(&mut self, price: Price);

    /// Replays closed candles, oldest first.
    fn load(&mut self, data: &Vec<Price>);

    fn get_last(&self) -> Option<Value>;

    fn reset(&mut self);
}

/// One indicator, its latest reading (refreshed after every update, load
/// and reset) and whether it takes part in signals.
pub struct Handler<I> {
    pub indicator: I,
    pub last: Option<Value>,
    pub is_active: bool,
}

impl<I: Indicator> Handler<I> {
    pub fn new(kind: IndicatorKind) -> (r: Self)
        ensures
            r.is_active,
    {
        let indicator = I::for_kind(kind);
        let last = indicator.get_last();
        Handler { indicator, last, is_active: true }
    }

    pub fn toggle(&mut self) -> (r: bool)
        ensures
            final(self).is_active == !old(self).is_active,
            r == final(self).is_active,
    {
        self.is_active = !self.is_active;
        self.is_active
    }

    /// Feeds a tick; `after_close` says that it closed the candle.
    pub fn update(&mut self, price: Price, after_close: bool)
        ensures
            final(self).is_active == old(self).is_active,
    {
        if !after_close {
            self.indicator.update_before_close(price);
        } else {
            self.indicator.update_after_close(price);
        }
        self.last = self.indicator.get_last();
    }

    /// The latest reading.
    pub fn get_value(&self) -> (r: Option<Value>)
        ensures
            r == self.last,
    {
        self.last
    }

    pub fn load(&mut self, data: &Vec<Price>)
        ensures
            final(self).is_active == old(self).is_active,
    {
        self.indicator.load(data);
        self.last = self.indicator.get_last();
    }

    pub fn reset(&mut self)
        ensures
            final(self).is_active == old(self).is_active,
    {
        self.indicator.reset();
        self.last = self.indicator.get_last();
    }
}

/// Each indicator kind with its active flag, in stored order.
pub open spec fn flags_of<I>(s: Seq<(IndicatorKind, Handler<I>)>) -> Seq<(IndicatorKind, bool)> {
    s.map_values(|e: (IndicatorKind, Handler<I>)| (e.0, e.1.is_active))
}

pub open spec fn kinds_unique(f: Seq<(IndicatorKind, bool)>) -> bool {
    forall|i: int, j: int|
        0 <= i < f.len() && 0 <= j < f.len() && i != j ==> #[trigger] f[i].0 != #[trigger] f[j].0
}

pub open spec fn has_kind(f: Seq<(IndicatorKind, bool)>, k: IndicatorKind) -> bool {
    exists|i: int| 0 <= i < f.len() && #[trigger] f[i].0 == k
}

/// Flags after flipping the one of kind `k`.
pub open spec fn toggled(f: Seq<(IndicatorKind, bool)>, k: IndicatorKind) -> Seq<(IndicatorKind, bool)> {
    f.map_values(|e: (IndicatorKind, bool)| if e.0 == k { (e.0, !e.1) } else { e })
}

/// Flags after adding kind `k` as active (an existing one is replaced in place).
pub open spec fn added(f: Seq<(IndicatorKind, bool)>, k: IndicatorKind) -> Seq<(IndicatorKind, bool)> {
    if has_kind(f, k) {
        f.map_values(|e: (IndicatorKind, bool)| if e.0 == k { (k, true) } else { e })
    } else {
        f.push((k, true))
    }
}

/// Flags without kind `k`.
pub open spec fn removed(f: Seq<(IndicatorKind, bool)>, k: IndicatorKind) -> Seq<(IndicatorKind, bool)> {
    if has_kind(f, k) {
        f.remove(choose|i: int| 0 <= i < f.len() && #[trigger] f[i].0 == k)
    } else {
        f
    }
}

/// Readings of the active handlers that have one, in handler order.
pub open spec fn active_readings<I>(s: Seq<(IndicatorKind, Handler<I>)>) -> Seq<Value>
    decreases s.len(),
{
    if s.len() == 0 {
        Seq::empty()
    } else {
        let h = s.last().1;
        if h.is_active && h.last is Some {
            active_readings(s.drop_last()).push(h.last->0)
        } else {
            active_readings(s.drop_last())
        }
    }
}

/// Every handler's reading, tagged with its id on timeframe `tf`, in handler order.
pub open spec fn readings_data<I>(s: Seq<(IndicatorKind, Handler<I>)>, tf: TimeFrame) -> Seq<IndicatorData>
    decreases s.len(),
{
    if s.len() == 0 {
        Seq::empty()
    } else {
        let e = s.last();
        if e.1.last is Some {
            readings_data(s.drop_last(), tf).push(IndicatorData { id: (e.0, tf), value: e.1.last })
        } else {
            readings_data(s.drop_last(), tf)
        }
    }
}

/// Toggling an indicator twice restores every active flag.
pub proof fn lemma_toggle_twice(f: Seq<(IndicatorKind, bool)>, k: IndicatorKind)
    ensures
        toggled(toggled(f, k), k) == f,
{
    assert(toggled(toggled(f, k), k) =~= f);
}

/// The history `s` after one more closed candle `p`; when full, the oldest goes.
pub open spec fn pushed(s: Seq<Price>, p: Price) -> Seq<Price> {
    if s.len() < MAX_HISTORY {
        s.push(p)
    } else {
        s.drop_first().push(p)
    }
}

/// The history `s` after the closed candles of `d`, oldest first.
pub open spec fn pushed_all(s: Seq<Price>, d: Seq<Price>) -> Seq<Price>
    decreases d.len(),
{
    if d.len() == 0 {
        s
    } else {
        pushed(pushed_all(s, d.drop_last()), d.last())
    }
}

/// `after` is `before` once it has taken the tick `price` seen at `now`: at
/// or past the boundary the candle joins the history and the boundary moves
/// to the first one after `now`; before it, both stay. Kinds and flags stay.
pub open spec fn digested<I>(before: Tracker<I>, after: Tracker<I>, price: Price, now: u64) -> bool {
    &&& after.tf == before.tf
    &&& flags_of(after.indicators@) == flags_of(before.indicators@)
    &&& after.next_close as int % after.tf.millis() as int == 0
    &&& after.next_close > now
    &&& if now >= before.next_close {
        &&& after.next_close - after.tf.millis() <= now
        &&& history_items(after.price_data) == pushed(history_items(before.price_data), price)
    } else {
        &&& after.next_close == before.next_close
        &&& after.price_data == before.price_data
    }
}

/// All indicators of one timeframe on one asset, with the recent closed candles.
pub struct Tracker<I> {
    pub price_data: History,
    pub indicators: Vec<(IndicatorKind, Handler<I>)>,
    pub tf: TimeFrame,
    pub next_close: u64,
}

impl<I: Indicator> Tracker<I> {
    pub open spec fn flags(&self) -> Seq<(IndicatorKind, bool)> {
        flags_of(self.indicators@)
    }

    pub open spec fn wf(&self) -> bool {
        &&& kinds_unique(self.flags())
        &&& self.next_close as int % self.tf.millis() as int == 0
        &&& history_items(self.price_data).len() <= MAX_HISTORY
    }

    /// A tracker with no indicators whose next close is the first boundary after `now`.
    pub fn new(tf: TimeFrame, now: u64) -> (r: Self)
        requires
            now + tf.millis() <= u64::MAX,
        ensures
            r.wf(),
            r.tf == tf,
            r.flags() == Seq::<(IndicatorKind, bool)>::empty(),
            history_items(r.price_data) == Seq::<Price>::empty(),
            r.next_close > now,
            r.next_close - tf.millis() <= now,
    {
        let r = Tracker {
            price_data: history_new(),
            indicators: Vec::new(),
            tf,
            next_close: next_boundary(tf, now),
        };
        assert(r.flags() =~= Seq::<(IndicatorKind, bool)>::empty());
        r
    }

    /// The closed candles kept, oldest first.
    pub fn history(&self) -> (r: Vec<Price>)
        ensures
            r@ == history_items(self.price_data),
    {
        history_to_vec(&self.price_data)
    }

    /// Position of the handler of kind `k`.
    fn find(&self, k: IndicatorKind) -> (r: Option<usize>)
        ensures
            r matches Some(i) ==> i < self.indicators@.len() && self.flags()[i as int].0 == k,
            r is None ==> !has_kind(self.flags(), k),
    {
        let mut i: usize = 0;
        while i < self.indicators.len()
            invariant
                i <= self.indicators@.len(),
                forall|j: int| 0 <= j < i ==> #[trigger] self.indicators@[j].0 != k,
            decreases self.indicators.len() - i,
        {
            if self.indicators[i].0 == k {
                return Some(i);
            }
            i = i + 1;
        }
        proof {
            if has_kind(self.flags(), k) {
                let j = choose|j: int| 0 <= j < self.flags().len() && #[trigger] self.flags()[j].0 == k;
                assert(self.indicators@[j].0 == k);
            }
        }
        None
    }

    /// Feeds every handler; all keep their kind and flag.
    fn update_indicators(&mut self, price: Price, after_close: bool)
        ensures
            final(self).flags() == old(self).flags(),
            final(self).tf == old(self).tf,
            final(self).next_close == old(self).next_close,
            final(self).price_data == old(self).price_data,
    {
        let n = self.indicators.len();
        let mut i: usize = 0;
        while i < n
            invariant
                n == self.indicators@.len(),
                i <= n,
                self.flags() == old(self).flags(),
                self.tf == old(self).tf,
                self.next_close == old(self).next_close,
                self.price_data == old(self).price_data,
            decreases n - i,
        {
            let (k, mut h) = self.indicators.remove(i);
            h.update(price, after_close);
            self.indicators.insert(i, (k, h));
            proof {
                assert(self.flags() =~= old(self).flags());
            }
            i = i + 1;
        }
    }

    /// Takes a tick seen at time `now` (milliseconds). At or past the next
    /// boundary the tick closes a candle: it joins the history, the boundary
    /// moves to the first one after `now`, and the handlers commit it.
    /// Returns whether the tick closed a candle.
    pub fn digest(&mut self, price: Price, now: u64) -> (closed: bool)
        requires
            old(self).wf(),
            now + old(self).tf.millis() <= u64::MAX,
        ensures
            final(self).wf(),
            closed == (now >= old(self).next_close),
            digested(*old(self), *final(self), price, now),
            final(self).flags() == old(self).flags(),
            final(self).tf == old(self).tf,
            final(self).next_close as int % final(self).tf.millis() as int == 0,
            final(self).next_close > now,
            closed ==> final(self).next_close - final(self).tf.millis() <= now,
            !closed ==> final(self).next_close == old(self).next_close,
            closed ==> history_items(final(self).price_data) == pushed(
                history_items(old(self).price_data),
                price,
            ),
            !closed ==> final(self).price_data == old(self).price_data,
    {
        if now >= self.next_close {
            self.next_close = next_boundary(self.tf, now);
            history_push(&mut self.price_data, price);
            self.update_indicators(price, true);
            true
        } else {
            self.update_indicators(price, false);
            false
        }
    }

    /// Adds an active indicator of kind `kind`, replacing one of the same
    /// kind; with `load` it is first warmed up on the history.
    pub fn add_indicator(&mut self, kind: IndicatorKind, load: bool)
        requires
            old(self).wf(),
        ensures
            final(self).wf(),
            final(self).flags() == added(old(self).flags(), kind),
            final(self).tf == old(self).tf,
            final(self).next_close == old(self).next_close,
            final(self).price_data == old(self).price_data,
    {
        let mut handler: Handler<I> = Handler::new(kind);
        if load {
            let data = history_to_vec(&self.price_data);
            handler.load(&data);
        }
        match self.find(kind) {
            Some(i) => {
                self.indicators.set(i, (kind, handler));
                proof {
                    assert(self.flags() =~= added(old(self).flags(), kind));
                }
            },
            None => {
                self.indicators.push((kind, handler));
                proof {
                    assert(self.flags() =~= added(old(self).flags(), kind));
                }
            },
        }
    }

    pub fn remove_indicator(&mut self, kind: IndicatorKind)
        requires
            old(self).wf(),
        ensures
            final(self).wf(),
            final(self).flags() == removed(old(self).flags(), kind),
            !has_kind(final(self).flags(), kind),
            final(self).tf == old(self).tf,
            final(self).next_close == old(self).next_close,
            final(self).price_data == old(self).price_data,
    {
        match self.find(kind) {
            Some(i) => {
                let _ = self.indicators.remove(i);
                proof {
                    let f = old(self).flags();
                    let c = choose|j: int| 0 <= j < f.len() && #[trigger] f[j].0 == kind;
                    assert(c == i);
                    assert(self.flags() =~= f.remove(i as int));
                    if has_kind(self.flags(), kind) {
                        let j = choose|j: int|
                            0 <= j < self.flags().len() && #[trigger] self.flags()[j].0 == kind;
                        let j2 = if j < i { j } else { j + 1 };
                        assert(f[j2].0 == kind);
                    }
                }
            },
            None => {},
        }
    }

    /// Flips the active flag of kind `kind`, if present.
    pub fn toggle_indicator(&mut self, kind: IndicatorKind)
        requires
            old(self).wf(),
        ensures
            final(self).wf(),
            final(self).flags() == toggled(old(self).flags(), kind),
            final(self).tf == old(self).tf,
            final(self).next_close == old(self).next_close,
            final(self).price_data == old(self).price_data,
    {
        match self.find(kind) {
            Some(i) => {
                let (k, mut h) = self.indicators.remove(i);
                let _ = h.toggle();
                self.indicators.insert(i, (k, h));
                proof {
                    assert(self.flags() =~= toggled(old(self).flags(), kind));
                }
            },
            None => {
                proof {
                    assert(toggled(old(self).flags(), kind) =~= old(self).flags());
                }
            },
        }
    }

    /// Readings of the active indicators that have one.
    pub fn get_active_values(&self) -> (r: Vec<Value>)
        ensures
            r@ == active_readings(self.indicators@),
    {
        let mut values: Vec<Value> = Vec::new();
        let mut i: usize = 0;
        while i < self.indicators.len()
            invariant
                i <= self.indicators@.len(),
                values@ == active_readings(self.indicators@.subrange(0, i as int)),
            decreases self.indicators.len() - i,
        {
            proof {
                assert(self.indicators@.subrange(0, i + 1).drop_last() =~= self.indicators@.subrange(0, i as int));
            }
            if self.indicators[i].1.is_active {
                if let Some(v) = self.indicators[i].1.get_value() {
                    values.push(v);
                }
            }
            i = i + 1;
        }
        assert(self.indicators@.subrange(0, self.indicators@.len() as int) =~= self.indicators@);
        values
    }

    /// Readings of every indicator that has one, tagged with their id.
    pub fn get_indicators_data(&self) -> (r: Vec<IndicatorData>)
        ensures
            r@ == readings_data(self.indicators@, self.tf),
    {
        let mut values: Vec<IndicatorData> = Vec::new();
        let mut i: usize = 0;
        while i < self.indicators.len()
            invariant
                i <= self.indicators@.len(),
                values@ == readings_data(self.indicators@.subrange(0, i as int), self.tf),
            decreases self.indicators.len() - i,
        {
            proof {
                assert(self.indicators@.subrange(0, i + 1).drop_last() =~= self.indicators@.subrange(0, i as int));
            }
            if let Some(v) = self.indicators[i].1.get_value() {
                values.push(IndicatorData { id: (self.indicators[i].0, self.tf), value: Some(v) });
            }
            i = i + 1;
        }
        assert(self.indicators@.subrange(0, self.indicators@.len() as int) =~= self.indicators@);
        values
    }

    /// Replays `data` into every handler and appends it to the history.
    pub fn load(&mut self, data: &Vec<Price>)
        requires
            old(self).wf(),
        ensures
            final(self).wf(),
            final(self).flags() == old(self).flags(),
            final(self).tf == old(self).tf,
            final(self).next_close == old(self).next_close,
            history_items(final(self).price_data) == pushed_all(
                history_items(old(self).price_data),
                data@,
            ),
    {
        let n = self.indicators.len();
        let mut i: usize = 0;
        while i < n
            invariant
                n == self.indicators@.len(),
                i <= n,
                self.flags() == old(self).flags(),
                self.tf == old(self).tf,
                self.next_close == old(self).next_close,
                self.price_data == old(self).price_data,
            decreases n - i,
        {
            let (k, mut h) = self.indicators.remove(i);
            h.load(data);
            self.indicators.insert(i, (k, h));
            proof {
                assert(self.flags() =~= old(self).flags());
            }
            i = i + 1;
        }
        let mut j: usize = 0;
        while j < data.len()
            invariant
                j <= data@.len(),
                self.flags() == old(self).flags(),
                self.tf == old(self).tf,
                self.next_close == old(self).next_close,
                history_items(self.price_data) == pushed_all(
                    history_items(old(self).price_data),
                    data@.subrange(0, j as int),
                ),
                history_items(self.price_data).len() <= MAX_HISTORY,
            decreases data.len() - j,
        {
            proof {
                assert(data@.subrange(0, j + 1).drop_last() =~= data@.subrange(0, j as int));
            }
            history_push(&mut self.price_data, data[j]);
            j = j + 1;
        }
        assert(data@.subrange(0, data@.len() as int) =~= data@);
    }

    /// Empties the history and resets every handler.
    pub fn reset(&mut self)
        requires
            old(self).wf(),
        ensures
            final(self).wf(),
            final(self).flags() == old(self).flags(),
            final(self).tf == old(self).tf,
            final(self).next_close == old(self).next_close,
            history_items(final(self).price_data) == Seq::<Price>::empty(),
    {
        history_clear(&mut self.price_data);
        let n = self.indicators.len();
        let mut i: usize = 0;
        while i < n
            invariant
                n == self.indicators@.len(),
                i <= n,
                self.flags() == old(self).flags(),
                self.tf == old(self).tf,
                self.next_close == old(self).next_close,
                history_items(self.price_data) == Seq::<Price>::empty(),
            decreases n - i,
        {
            let (k, mut h) = self.indicators.remove(i);
            h.reset();
            self.indicators.insert(i, (k, h));
            proof {
                assert(self.flags() =~= old(self).flags());
            }
            i = i + 1;
        }
    }
}

} // verus!
