use vstd::prelude::*;

use crate::history::history_items;
use crate::signal::{Indicator, Tracker, active_readings, added, digested, pushed_all, readings_data, removed, toggled};
use crate::strategy::Strategy;
use crate::timeframe::TimeFrame;
use crate::trade::{TradeCommand, TradeParams};
use crate::types::{EditType, Entry, ExecParam, ExecParams, IndexId, IndicatorData, IndicatorKind, Price, Value};

verus! {

/// A clock reading far enough from the end of `u64` that every boundary after it fits.
pub open spec fn clock_ok(now: u64) -> bool {
    now as int + TimeFrame::Month.millis() <= u64::MAX
}

pub proof fn lemma_millis_bound(tf: TimeFrame)
    ensures
        0 < tf.millis() <= TimeFrame::Month.millis(),
{
}

/// Timeframe and indicator flags of each tracker.
pub open spec fn engine_flags<I>(s: Seq<Tracker<I>>) -> Seq<(TimeFrame, Seq<(IndicatorKind, bool)>)> {
    s.map_values(|t: Tracker<I>| (t.tf, crate::signal::flags_of(t.indicators@)))
}

pub open spec fn has_tf(e: Seq<(TimeFrame, Seq<(IndicatorKind, bool)>)>, tf: TimeFrame) -> bool {
    exists|i: int| 0 <= i < e.len() && #[trigger] e[i].0 == tf
}

/// Whether indicator `id` is present and active.
pub open spec fn is_active_in(e: Seq<(TimeFrame, Seq<(IndicatorKind, bool)>)>, id: IndexId) -> bool {
    exists|a: int, b: int|
        0 <= a < e.len() && 0 <= b < e[a].1.len() && e[a].0 == id.1 && #[trigger] e[a].1[b] == (id.0, true)
}

/// Active readings of every tracker, tracker by tracker.
pub open spec fn engine_readings<I>(s: Seq<Tracker<I>>) -> Seq<Value>
    decreases s.len(),
{
    if s.len() == 0 {
        Seq::empty()
    } else {
        engine_readings(s.drop_last()) + active_readings(s.last().indicators@)
    }
}

/// Tagged readings of every tracker, tracker by tracker.
pub open spec fn engine_data<I>(s: Seq<Tracker<I>>) -> Seq<IndicatorData>
    decreases s.len(),
{
    if s.len() == 0 {
        Seq::empty()
    } else {
        engine_data(s.drop_last()) + readings_data(s.last().indicators@, s.last().tf)
    }
}

/// Engine flags after flipping the indicator `id`.
pub open spec fn engine_toggled(e: Seq<(TimeFrame, Seq<(IndicatorKind, bool)>)>, id: IndexId) -> Seq<
    (TimeFrame, Seq<(IndicatorKind, bool)>),
> {
    e.map_values(
        |t: (TimeFrame, Seq<(IndicatorKind, bool)>)|
            if t.0 == id.1 {
                (t.0, toggled(t.1, id.0))
            } else {
                t
            },
    )
}

/// Engine flags after removing the indicator `id`.
pub open spec fn engine_removed(e: Seq<(TimeFrame, Seq<(IndicatorKind, bool)>)>, id: IndexId) -> Seq<
    (TimeFrame, Seq<(IndicatorKind, bool)>),
> {
    e.map_values(
        |t: (TimeFrame, Seq<(IndicatorKind, bool)>)|
            if t.0 == id.1 {
                (t.0, removed(t.1, id.0))
            } else {
                t
            },
    )
}

/// Engine flags after adding the indicator `id`; a new timeframe gets a tracker of its own.
pub open spec fn engine_added(e: Seq<(TimeFrame, Seq<(IndicatorKind, bool)>)>, id: IndexId) -> Seq<
    (TimeFrame, Seq<(IndicatorKind, bool)>),
> {
    if has_tf(e, id.1) {
        e.map_values(
            |t: (TimeFrame, Seq<(IndicatorKind, bool)>)|
                if t.0 == id.1 {
                    (t.0, added(t.1, id.0))
                } else {
                    t
                },
        )
    } else {
        e.push((id.1, seq![(id.0, true)]))
    }
}

/// Engine flags after adding each indicator of `ids`, in order.
pub open spec fn engine_added_all(e: Seq<(TimeFrame, Seq<(IndicatorKind, bool)>)>, ids: Seq<IndexId>) -> Seq<
    (TimeFrame, Seq<(IndicatorKind, bool)>),
>
    decreases ids.len(),
{
    if ids.len() == 0 {
        e
    } else {
        engine_added(engine_added_all(e, ids.drop_last()), ids.last())
    }
}

/// Engine flags after one edit.
pub open spec fn engine_edited(e: Seq<(TimeFrame, Seq<(IndicatorKind, bool)>)>, entry: Entry) -> Seq<
    (TimeFrame, Seq<(IndicatorKind, bool)>),
> {
    match entry.edit {
        EditType::Add => engine_added(e, entry.id),
        EditType::Remove => engine_removed(e, entry.id),
        EditType::Toggle => engine_toggled(e, entry.id),
    }
}

/// Engine flags after a list of edits, applied in order.
pub open spec fn engine_edited_all(e: Seq<(TimeFrame, Seq<(IndicatorKind, bool)>)>, entries: Seq<Entry>) -> Seq<
    (TimeFrame, Seq<(IndicatorKind, bool)>),
>
    decreases entries.len(),
{
    if entries.len() == 0 {
        e
    } else {
        engine_edited(engine_edited_all(e, entries.drop_last()), entries.last())
    }
}

/// Toggling an indicator twice restores every active flag of the engine.
pub proof fn lemma_engine_toggle_twice(e: Seq<(TimeFrame, Seq<(IndicatorKind, bool)>)>, id: IndexId)
    ensures
        engine_toggled(engine_toggled(e, id), id) == e,
{
    assert forall|i: int| 0 <= i < e.len() implies engine_toggled(engine_toggled(e, id), id)[i]
        == e[i] by {
        crate::signal::lemma_toggle_twice(e[i].1, id.0);
    }
    assert(engine_toggled(engine_toggled(e, id), id) =~= e);
}

/// The indicator trackers of one asset, its strategy and execution parameters.
pub struct SignalEngine<I> {
    pub trackers: Vec<Tracker<I>>,
    pub strategy: Strategy,
    pub exec_params: ExecParams,
    /// Ticks seen so far; every fifth one ships a snapshot.
    pub tick: u64,
}

impl<I: Indicator> SignalEngine<I> {
    pub open spec fn flags(&self) -> Seq<(TimeFrame, Seq<(IndicatorKind, bool)>)> {
        engine_flags(self.trackers@)
    }

    pub open spec fn wf(&self) -> bool {
        &&& forall|i: int, j: int|
            0 <= i < self.trackers@.len() && 0 <= j < self.trackers@.len() && i != j
                ==> #[trigger] self.trackers@[i].tf != #[trigger] self.trackers@[j].tf
        &&& forall|i: int| 0 <= i < self.trackers@.len() ==> #[trigger] self.trackers@[i].wf()
    }

    /// An engine with a tracker for the base timeframe and the configured
    /// indicators, none warmed up yet.
    pub fn new(config: Option<Vec<IndexId>>, trade_params: TradeParams, margin: i64, now: u64) -> (r: Self)
        requires
            clock_ok(now),
        ensures
            r.wf(),
            r.strategy == trade_params.strategy,
            r.exec_params == (ExecParams {
                margin,
                lev: trade_params.lev,
                tf: trade_params.time_frame,
            }),
            r.flags().len() > 0,
            r.flags()[0].0 == trade_params.time_frame,
            r.tick == 0,
            config is None ==> r.flags() == seq![
                (trade_params.time_frame, Seq::<(IndicatorKind, bool)>::empty()),
            ],
            config matches Some(list) ==> r.flags() == engine_added_all(
                seq![(trade_params.time_frame, Seq::<(IndicatorKind, bool)>::empty())],
                list@,
            ),
    {
        proof {
            lemma_millis_bound(trade_params.time_frame);
        }
        let mut trackers: Vec<Tracker<I>> = Vec::new();
        trackers.push(Tracker::new(trade_params.time_frame, now));
        let mut engine = SignalEngine {
            trackers,
            strategy: trade_params.strategy,
            exec_params: ExecParams::new(margin, trade_params.lev, trade_params.time_frame),
            tick: 0,
        };
        proof {
            assert(engine.flags() =~= seq![
                (trade_params.time_frame, Seq::<(IndicatorKind, bool)>::empty()),
            ]);
        }
        if let Some(list) = config {
            let mut i: usize = 0;
            while i < list.len()
                invariant
                    engine.wf(),
                    clock_ok(now),
                    i <= list@.len(),
                    engine.strategy == trade_params.strategy,
                    engine.exec_params == (ExecParams {
                        margin,
                        lev: trade_params.lev,
                        tf: trade_params.time_frame,
                    }),
                    engine.tick == 0,
                    engine.flags().len() > 0,
                    engine.flags()[0].0 == trade_params.time_frame,
                    engine.flags() == engine_added_all(
                        seq![(trade_params.time_frame, Seq::<(IndicatorKind, bool)>::empty())],
                        list@.subrange(0, i as int),
                    ),
                decreases list.len() - i,
            {
                let ghost before = engine.flags();
                engine.add_indicator_with(list[i], false, now);
                proof {
                    assert(list@.subrange(0, i + 1).drop_last() =~= list@.subrange(0, i as int));
                    if has_tf(before, list@[i as int].1) {
                        assert(engine.flags()[0].0 == before[0].0);
                    } else {
                        assert(engine.flags()[0] == before[0]);
                    }
                }
                i = i + 1;
            }
            assert(list@.subrange(0, list@.len() as int) =~= list@);
        }
        engine
    }

    /// Position of the tracker of `tf`.
    fn find_tracker(&self, tf: TimeFrame) -> (r: Option<usize>)
        ensures
            r matches Some(i) ==> i < self.trackers@.len() && self.trackers@[i as int].tf == tf,
            r is None ==> !has_tf(self.flags(), tf),
    {
        let mut i: usize = 0;
        while i < self.trackers.len()
            invariant
                i <= self.trackers@.len(),
                forall|j: int| 0 <= j < i ==> #[trigger] self.trackers@[j].tf != tf,
            decreases self.trackers.len() - i,
        {
            if self.trackers[i].tf == tf {
                return Some(i);
            }
            i = i + 1;
        }
        proof {
            if has_tf(self.flags(), tf) {
                let j = choose|j: int| 0 <= j < self.flags().len() && #[trigger] self.flags()[j].0 == tf;
                assert(self.trackers@[j].tf == tf);
            }
        }
        None
    }

    fn add_indicator_with(&mut self, id: IndexId, load: bool, now: u64)
        requires
            old(self).wf(),
            clock_ok(now),
        ensures
            final(self).wf(),
            final(self).flags() == engine_added(old(self).flags(), id),
            final(self).strategy == old(self).strategy,
            final(self).exec_params == old(self).exec_params,
            final(self).tick == old(self).tick,
    {
        match self.find_tracker(id.1) {
            Some(i) => {
                let mut t = self.trackers.remove(i);
                t.add_indicator(id.0, load);
                self.trackers.insert(i, t);
                proof {
                    let e = old(self).flags();
                    assert(has_tf(e, id.1)) by {
                        assert(e[i as int].0 == id.1);
                    }
                    assert forall|a: int, b: int|
                        0 <= a < self.trackers@.len() && 0 <= b < self.trackers@.len() && a != b
                            implies #[trigger] self.trackers@[a].tf != #[trigger] self.trackers@[b].tf by {
                        assert(self.trackers@[a].tf == old(self).trackers@[a].tf);
                        assert(self.trackers@[b].tf == old(self).trackers@[b].tf);
                    }
                    assert forall|a: int| 0 <= a < self.trackers@.len() implies #[trigger] self.trackers@[a].wf() by {
                        if a != i {
                            assert(self.trackers@[a] == old(self).trackers@[a]);
                        }
                    }
                    assert forall|a: int| 0 <= a < e.len() implies #[trigger] self.flags()[a] == engine_added(e, id)[a] by {
                        if a != i {
                            assert(self.trackers@[a] == old(self).trackers@[a]);
                            assert(e[a].0 != id.1);
                        }
                    }
                    assert(self.flags() =~= engine_added(e, id));
                }
            },
            None => {
                proof {
                    lemma_millis_bound(id.1);
                }
                let mut t: Tracker<I> = Tracker::new(id.1, now);
                t.add_indicator(id.0, false);
                self.trackers.push(t);
                proof {
                    let e = old(self).flags();
                    assert(t.flags() =~= seq![(id.0, true)]);
                    assert forall|a: int, b: int|
                        0 <= a < self.trackers@.len() && 0 <= b < self.trackers@.len() && a != b
                            implies #[trigger] self.trackers@[a].tf != #[trigger] self.trackers@[b].tf by {
                        if a == e.len() {
                            assert(e[b].0 == self.trackers@[b].tf);
                        } else if b == e.len() {
                            assert(e[a].0 == self.trackers@[a].tf);
                        }
                    }
                    assert forall|a: int| 0 <= a < self.trackers@.len() implies #[trigger] self.trackers@[a].wf() by {
                        if a < e.len() {
                            assert(self.trackers@[a] == old(self).trackers@[a]);
                        }
                    }
                    assert(self.flags() =~= engine_added(e, id));
                }
            },
        }
    }

    /// Adds an indicator. On a timeframe already tracked it is warmed up on
    /// that tracker's history; a new timeframe gets a new, cold tracker.
    pub fn add_indicator(&mut self, id: IndexId, now: u64)
        requires
            old(self).wf(),
            clock_ok(now),
        ensures
            final(self).wf(),
            final(self).flags() == engine_added(old(self).flags(), id),
            final(self).strategy == old(self).strategy,
            final(self).exec_params == old(self).exec_params,
            final(self).tick == old(self).tick,
    {
        self.add_indicator_with(id, true, now);
    }

    pub fn remove_indicator(&mut self, id: IndexId)
        requires
            old(self).wf(),
        ensures
            final(self).wf(),
            final(self).flags() == engine_removed(old(self).flags(), id),
            final(self).strategy == old(self).strategy,
            final(self).exec_params == old(self).exec_params,
            final(self).tick == old(self).tick,
    {
        match self.find_tracker(id.1) {
            Some(i) => {
                let mut t = self.trackers.remove(i);
                t.remove_indicator(id.0);
                self.trackers.insert(i, t);
                proof {
                    self.lemma_replaced(*old(self), i as int);
                    let e = old(self).flags();
                    assert forall|a: int| 0 <= a < e.len() implies #[trigger] self.flags()[a] == engine_removed(e, id)[a] by {
                        if a != i {
                            assert(self.trackers@[a] == old(self).trackers@[a]);
                            assert(e[a].0 != id.1);
                        }
                    }
                    assert(self.flags() =~= engine_removed(e, id));
                }
            },
            None => {
                proof {
                    let e = old(self).flags();
                    assert forall|a: int| 0 <= a < e.len() implies #[trigger] engine_removed(e, id)[a] == e[a] by {
                        assert(e[a].0 != id.1);
                    }
                    assert(engine_removed(e, id) =~= e);
                }
            },
        }
    }

    pub fn toggle_indicator(&mut self, id: IndexId)
        requires
            old(self).wf(),
        ensures
            final(self).wf(),
            final(self).flags() == engine_toggled(old(self).flags(), id),
            final(self).strategy == old(self).strategy,
            final(self).exec_params == old(self).exec_params,
            final(self).tick == old(self).tick,
    {
        match self.find_tracker(id.1) {
            Some(i) => {
                let mut t = self.trackers.remove(i);
                t.toggle_indicator(id.0);
                self.trackers.insert(i, t);
                proof {
                    self.lemma_replaced(*old(self), i as int);
                    let e = old(self).flags();
                    assert forall|a: int| 0 <= a < e.len() implies #[trigger] self.flags()[a] == engine_toggled(e, id)[a] by {
                        if a != i {
                            assert(self.trackers@[a] == old(self).trackers@[a]);
                            assert(e[a].0 != id.1);
                        }
                    }
                    assert(self.flags() =~= engine_toggled(e, id));
                }
            },
            None => {
                proof {
                    let e = old(self).flags();
                    assert forall|a: int| 0 <= a < e.len() implies #[trigger] engine_toggled(e, id)[a] == e[a] by {
                        assert(e[a].0 != id.1);
                    }
                    assert(engine_toggled(e, id) =~= e);
                }
            },
        }
    }

    /// After one tracker was swapped for a well-formed one of the same
    /// timeframe, the engine is still well-formed.
    proof fn lemma_replaced(&self, before: Self, i: int)
        requires
            before.wf(),
            0 <= i < before.trackers@.len(),
            self.trackers@.len() == before.trackers@.len(),
            self.trackers@[i].wf(),
            self.trackers@[i].tf == before.trackers@[i].tf,
            forall|a: int| 0 <= a < self.trackers@.len() && a != i ==> #[trigger] self.trackers@[a] == before.trackers@[a],
        ensures
            self.wf(),
    {
        assert forall|a: int, b: int|
            0 <= a < self.trackers@.len() && 0 <= b < self.trackers@.len() && a != b
                implies #[trigger] self.trackers@[a].tf != #[trigger] self.trackers@[b].tf by {
            assert(self.trackers@[a].tf == before.trackers@[a].tf);
            assert(self.trackers@[b].tf == before.trackers@[b].tf);
        }
        assert forall|a: int| 0 <= a < self.trackers@.len() implies #[trigger] self.trackers@[a].wf() by {
            if a != i {
                assert(self.trackers@[a] == before.trackers@[a]);
            }
        }
    }

    /// Applies indicator edits in order.
    pub fn edit_indicators(&mut self, entries: &Vec<Entry>, now: u64)
        requires
            old(self).wf(),
            clock_ok(now),
        ensures
            final(self).wf(),
            final(self).flags() == engine_edited_all(old(self).flags(), entries@),
            final(self).strategy == old(self).strategy,
            final(self).exec_params == old(self).exec_params,
            final(self).tick == old(self).tick,
    {
        let mut i: usize = 0;
        while i < entries.len()
            invariant
                self.wf(),
                clock_ok(now),
                i <= entries@.len(),
                self.flags() == engine_edited_all(old(self).flags(), entries@.subrange(0, i as int)),
                self.strategy == old(self).strategy,
                self.exec_params == old(self).exec_params,
                self.tick == old(self).tick,
            decreases entries.len() - i,
        {
            proof {
                assert(entries@.subrange(0, i + 1).drop_last() =~= entries@.subrange(0, i as int));
            }
            let entry = entries[i];
            match entry.edit {
                EditType::Add => self.add_indicator(entry.id, now),
                EditType::Remove => self.remove_indicator(entry.id),
                EditType::Toggle => self.toggle_indicator(entry.id),
            }
            i = i + 1;
        }
        assert(entries@.subrange(0, entries@.len() as int) =~= entries@);
    }

    /// Every active indicator, by id.
    pub fn get_active_indicators(&self) -> (r: Vec<IndexId>)
        ensures
            forall|j: int| 0 <= j < r@.len() ==> is_active_in(self.flags(), #[trigger] r@[j]),
    {
        let mut active: Vec<IndexId> = Vec::new();
        let mut a: usize = 0;
        while a < self.trackers.len()
            invariant
                a <= self.trackers@.len(),
                forall|j: int| 0 <= j < active@.len() ==> is_active_in(self.flags(), #[trigger] active@[j]),
            decreases self.trackers.len() - a,
        {
            let t = &self.trackers[a];
            let mut b: usize = 0;
            while b < t.indicators.len()
                invariant
                    a < self.trackers@.len(),
                    t == self.trackers@[a as int],
                    b <= t.indicators@.len(),
                    forall|j: int| 0 <= j < active@.len() ==> is_active_in(self.flags(), #[trigger] active@[j]),
                decreases t.indicators.len() - b,
            {
                if t.indicators[b].1.is_active {
                    proof {
                        assert(self.flags()[a as int].1[b as int] == (t.indicators@[b as int].0, true));
                        assert(self.flags()[a as int].0 == t.tf);
                    }
                    active.push((t.indicators[b].0, t.tf));
                }
                b = b + 1;
            }
            a = a + 1;
        }
        active
    }

    /// Readings of the active indicators of every tracker.
    pub fn get_active_values(&self) -> (r: Vec<Value>)
        ensures
            r@ == engine_readings(self.trackers@),
    {
        let mut values: Vec<Value> = Vec::new();
        let mut a: usize = 0;
        while a < self.trackers.len()
            invariant
                a <= self.trackers@.len(),
                values@ == engine_readings(self.trackers@.subrange(0, a as int)),
            decreases self.trackers.len() - a,
        {
            proof {
                assert(self.trackers@.subrange(0, a + 1).drop_last() =~= self.trackers@.subrange(0, a as int));
            }
            let mut v = self.trackers[a].get_active_values();
            values.append(&mut v);
            a = a + 1;
        }
        assert(self.trackers@.subrange(0, self.trackers@.len() as int) =~= self.trackers@);
        values
    }

    /// Readings of every indicator that has one, tagged with their id.
    pub fn get_indicators_data(&self) -> (r: Vec<IndicatorData>)
        ensures
            r@ == engine_data(self.trackers@),
    {
        let mut values: Vec<IndicatorData> = Vec::new();
        let mut a: usize = 0;
        while a < self.trackers.len()
            invariant
                a <= self.trackers@.len(),
                values@ == engine_data(self.trackers@.subrange(0, a as int)),
            decreases self.trackers.len() - a,
        {
            proof {
                assert(self.trackers@.subrange(0, a + 1).drop_last() =~= self.trackers@.subrange(0, a as int));
            }
            let mut v = self.trackers[a].get_indicators_data();
            values.append(&mut v);
            a = a + 1;
        }
        assert(self.trackers@.subrange(0, self.trackers@.len() as int) =~= self.trackers@);
        values
    }

    pub fn change_strategy(&mut self, strategy: Strategy)
        ensures
            final(self).strategy == strategy,
            final(self).trackers == old(self).trackers,
            final(self).exec_params == old(self).exec_params,
            final(self).tick == old(self).tick,
    {
        self.strategy = strategy;
    }

    pub fn get_strategy(&self) -> (r: &Strategy)
        ensures
            *r == self.strategy,
    {
        &self.strategy
    }

    pub fn update_exec_params(&mut self, param: ExecParam)
        ensures
            final(self).exec_params == match param {
                ExecParam::Margin(m) => ExecParams { margin: m, ..old(self).exec_params },
                ExecParam::Lev(l) => ExecParams { lev: l, ..old(self).exec_params },
                ExecParam::Tf(t) => ExecParams { tf: t, ..old(self).exec_params },
            },
            final(self).trackers == old(self).trackers,
            final(self).strategy == old(self).strategy,
            final(self).tick == old(self).tick,
    {
        self.exec_params.apply(param);
    }

    /// Warms up the tracker of `tf` on `data`; nothing happens when `tf` is not tracked.
    pub fn load(&mut self, tf: TimeFrame, data: &Vec<Price>)
        requires
            old(self).wf(),
        ensures
            final(self).wf(),
            final(self).flags() == old(self).flags(),
            final(self).trackers@.len() == old(self).trackers@.len(),
            forall|i: int| 0 <= i < old(self).trackers@.len() ==> history_items(
                #[trigger] final(self).trackers@[i].price_data,
            ) == if old(self).trackers@[i].tf == tf {
                pushed_all(history_items(old(self).trackers@[i].price_data), data@)
            } else {
                history_items(old(self).trackers@[i].price_data)
            },
            final(self).strategy == old(self).strategy,
            final(self).exec_params == old(self).exec_params,
            final(self).tick == old(self).tick,
    {
        if let Some(i) = self.find_tracker(tf) {
            let mut t = self.trackers.remove(i);
            t.load(data);
            self.trackers.insert(i, t);
            proof {
                self.lemma_replaced(*old(self), i as int);
                assert forall|a: int| 0 <= a < self.flags().len() implies #[trigger] self.flags()[a] == old(self).flags()[a] by {
                    if a != i {
                        assert(self.trackers@[a] == old(self).trackers@[a]);
                    }
                }
                assert(self.flags() =~= old(self).flags());
                assert forall|a: int| 0 <= a < old(self).trackers@.len() implies history_items(
                    #[trigger] self.trackers@[a].price_data,
                ) == if old(self).trackers@[a].tf == tf {
                    pushed_all(history_items(old(self).trackers@[a].price_data), data@)
                } else {
                    history_items(old(self).trackers@[a].price_data)
                } by {
                    if a != i {
                        assert(self.trackers@[a] == old(self).trackers@[a]);
                        assert(old(self).trackers@[a].tf != old(self).trackers@[i as int].tf);
                    }
                }
            }
        } else {
            proof {
                assert forall|a: int| 0 <= a < old(self).trackers@.len() implies old(self).trackers@[a].tf != tf by {
                    assert(old(self).flags()[a].0 == old(self).trackers@[a].tf);
                }
            }
        }
    }

    /// Empties every tracker's history and resets its handlers.
    pub fn reset(&mut self)
        requires
            old(self).wf(),
        ensures
            final(self).wf(),
            final(self).flags() == old(self).flags(),
            forall|i: int| 0 <= i < final(self).trackers@.len() ==> history_items(
                #[trigger] final(self).trackers@[i].price_data,
            ) == Seq::<Price>::empty(),
    {
        let n = self.trackers.len();
        let mut i: usize = 0;
        while i < n
            invariant
                n == self.trackers@.len(),
                i <= n,
                self.wf(),
                self.flags() == old(self).flags(),
                forall|j: int| 0 <= j < i ==> history_items(#[trigger] self.trackers@[j].price_data) == Seq::<Price>::empty(),
            decreases n - i,
        {
            let ghost before = *self;
            let mut t = self.trackers.remove(i);
            t.reset();
            self.trackers.insert(i, t);
            proof {
                self.lemma_replaced(before, i as int);
                assert forall|a: int| 0 <= a < self.flags().len() implies #[trigger] self.flags()[a] == before.flags()[a] by {
                    if a != i {
                        assert(self.trackers@[a] == before.trackers@[a]);
                    }
                }
                assert(self.flags() =~= before.flags());
                assert forall|j: int| 0 <= j < i + 1 implies history_items(#[trigger] self.trackers@[j].price_data) == Seq::<Price>::empty() by {
                    if j < i {
                        assert(self.trackers@[j] == before.trackers@[j]);
                    }
                }
            }
            i = i + 1;
        }
    }

    /// Feeds a tick seen at time `now` to every tracker. Returns whether this
    /// tick is one on which a snapshot of the readings goes upstream (every
    /// fifth, starting with the first).
    pub fn update_price(&mut self, price: Price, now: u64) -> (snapshot: bool)
        requires
            old(self).wf(),
            clock_ok(now),
        ensures
            final(self).wf(),
            snapshot == (old(self).tick % 5 == 0),
            final(self).tick == if old(self).tick < u64::MAX {
                old(self).tick + 1
            } else {
                0
            },
            final(self).flags() == old(self).flags(),
            final(self).strategy == old(self).strategy,
            final(self).exec_params == old(self).exec_params,
            final(self).trackers@.len() == old(self).trackers@.len(),
            forall|i: int|
                0 <= i < final(self).trackers@.len() ==> digested(
                    old(self).trackers@[i],
                    #[trigger] final(self).trackers@[i],
                    price,
                    now,
                ),
            forall|i: int| 0 <= i < final(self).trackers@.len() ==> #[trigger] final(self).trackers@[i].next_close > now,
    {
        let n = self.trackers.len();
        let mut i: usize = 0;
        while i < n
            invariant
                n == self.trackers@.len(),
                i <= n,
                self.wf(),
                clock_ok(now),
                self.flags() == old(self).flags(),
                self.strategy == old(self).strategy,
                self.exec_params == old(self).exec_params,
                self.tick == old(self).tick,
                forall|j: int| 0 <= j < i ==> #[trigger] self.trackers@[j].next_close > now,
                forall|j: int| 0 <= j < i ==> digested(old(self).trackers@[j], #[trigger] self.trackers@[j], price, now),
                forall|j: int| i <= j < n ==> #[trigger] self.trackers@[j] == old(self).trackers@[j],
            decreases n - i,
        {
            let ghost before = *self;
            let mut t = self.trackers.remove(i);
            proof {
                lemma_millis_bound(t.tf);
            }
            let _ = t.digest(price, now);
            self.trackers.insert(i, t);
            proof {
                self.lemma_replaced(before, i as int);
                assert forall|a: int| 0 <= a < self.flags().len() implies #[trigger] self.flags()[a] == before.flags()[a] by {
                    if a != i {
                        assert(self.trackers@[a] == before.trackers@[a]);
                    }
                }
                assert(self.flags() =~= before.flags());
                assert forall|j: int| 0 <= j <= i implies #[trigger] self.trackers@[j].next_close > now by {
                    if j < i {
                        assert(self.trackers@[j] == before.trackers@[j]);
                    }
                }
                assert forall|j: int| 0 <= j < i + 1 implies digested(old(self).trackers@[j], #[trigger] self.trackers@[j], price, now) by {
                    if j < i {
                        assert(self.trackers@[j] == before.trackers@[j]);
                    }
                }
                assert forall|j: int| i + 1 <= j < n implies #[trigger] self.trackers@[j] == old(self).trackers@[j] by {
                    assert(self.trackers@[j] == before.trackers@[j]);
                }
            }
            i = i + 1;
        }
        let snapshot = self.tick % 5 == 0;
        self.tick = if self.tick < u64::MAX {
            self.tick + 1
        } else {
            0
        };
        snapshot
    }

    /// The strategy's command for the close price and the given readings.
    pub fn get_signal(&self, price: u64, values: &Vec<Value>) -> (r: Option<TradeCommand>)
        ensures
            r == match self.strategy {
                Strategy::Custom(c) => c.signal(values@, price as int, self.exec_params),
            },
    {
        match self.strategy {
            Strategy::Custom(c) => c.generate_signal(values, price, self.exec_params),
        }
    }
}

} // verus!
