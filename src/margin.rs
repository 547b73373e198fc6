use vstd::prelude::*;

use crate::error::Error;
use crate::keyed::{KeyedVec, lemma_map_of_at};
use crate::units::SCALE;

verus! {

/// How much margin a market asks for: a fraction of the on-chain total (in
/// millionths) or a fixed amount.
#[derive(Clone, Debug, Copy, PartialEq, Eq, Structural)]
pub enum MarginAllocation {
    Alloc(i64),
    Amount(i64),
}

/// An asset and a margin amount for it.
pub type AssetMargin = (String, i64);

/// Sum of the amounts held in a sequence of entries.
pub open spec fn sum_of(s: Seq<(String, i64)>) -> int
    decreases s.len(),
{
    if s.len() == 0 {
        0
    } else {
        sum_of(s.drop_last()) + s.last().1
    }
}

pub open spec fn all_positive(s: Seq<(String, i64)>) -> bool {
    forall|i: int| 0 <= i < s.len() ==> #[trigger] s[i].1 > 0
}

proof fn lemma_sum_update(s: Seq<(String, i64)>, i: int, e: (String, i64))
    requires
        0 <= i < s.len(),
    ensures
        sum_of(s.update(i, e)) == sum_of(s) - s[i].1 + e.1,
    decreases s.len(),
{
    let t = s.update(i, e);
    if i == s.len() - 1 {
        assert(t.drop_last() =~= s.drop_last());
    } else {
        assert(t.drop_last() =~= s.drop_last().update(i, e));
        lemma_sum_update(s.drop_last(), i, e);
    }
}

proof fn lemma_sum_remove(s: Seq<(String, i64)>, i: int)
    requires
        0 <= i < s.len(),
    ensures
        sum_of(s.remove(i)) == sum_of(s) - s[i].1,
    decreases s.len(),
{
    let t = s.remove(i);
    if i == s.len() - 1 {
        assert(t =~= s.drop_last());
    } else {
        assert(t.drop_last() =~= s.drop_last().remove(i));
        lemma_sum_remove(s.drop_last(), i);
    }
}

proof fn lemma_sum_push(s: Seq<(String, i64)>, e: (String, i64))
    ensures
        sum_of(s.push(e)) == sum_of(s) + e.1,
{
    assert(s.push(e).drop_last() =~= s);
}

proof fn lemma_sum_prefix(s: Seq<(String, i64)>, i: int)
    requires
        all_positive(s),
        0 <= i <= s.len(),
    ensures
        0 <= sum_of(s.subrange(0, i)) <= sum_of(s),
    decreases s.len(),
{
    if i == s.len() {
        assert(s.subrange(0, i) =~= s);
        if s.len() > 0 {
            lemma_sum_prefix(s.drop_last(), i - 1);
            assert(s.drop_last().subrange(0, i - 1) =~= s.drop_last());
        }
    } else {
        let d = s.drop_last();
        assert(s.subrange(0, i) =~= d.subrange(0, i));
        lemma_sum_prefix(d, i);
    }
}

/// Unrealised pnl net of funding since open, summed over positions `(upnl, funding)`.
pub open spec fn net_upnl(s: Seq<(i64, i64)>) -> int
    decreases s.len(),
{
    if s.len() == 0 {
        0
    } else {
        net_upnl(s.drop_last()) + (s.last().0 - s.last().1)
    }
}

/// The equity that margin is allocated from: account value minus the
/// unrealised pnl net of funding of the open positions. `None` when it does
/// not fit. (A vector of pairs of `i64` holds fewer than 2^59 items.)
pub fn user_equity(account_value: i64, positions: &Vec<(i64, i64)>) -> (r: Option<i64>)
    requires
        positions@.len() < 0x800_0000_0000_0000,
    ensures
        r matches Some(v) ==> v == account_value - net_upnl(positions@),
        r is None ==> !(i64::MIN <= account_value - net_upnl(positions@) <= i64::MAX),
{
    let mut acc: i128 = 0;
    let mut i: usize = 0;
    while i < positions.len()
        invariant
            i <= positions@.len(),
            positions@.len() < 0x800_0000_0000_0000,
            acc == net_upnl(positions@.subrange(0, i as int)),
            -(i as int) * 0x2_0000_0000_0000_0000 <= acc <= (i as int) * 0x2_0000_0000_0000_0000,
        decreases positions.len() - i,
    {
        proof {
            assert(positions@.subrange(0, i + 1).drop_last() =~= positions@.subrange(0, i as int));
        }
        let (u, f) = positions[i];
        acc = acc + (u as i128 - f as i128);
        i = i + 1;
    }
    assert(positions@.subrange(0, positions@.len() as int) =~= positions@);
    let v = account_value as i128 - acc;
    if v < i64::MIN as i128 || v > i64::MAX as i128 {
        return None;
    }
    Some(v as i64)
}

/// Process-wide margin allocator: the equity on chain and what each market
/// has reserved of it.
pub struct MarginBook {
    map: KeyedVec<i64>,
    total_on_chain: i64,
}

/// Margin that an allocation asks for, given the on-chain total.
pub open spec fn requested(total: int, alloc: MarginAllocation) -> int {
    match alloc {
        MarginAllocation::Alloc(f) => if total > 0 && f > 0 {
            total * f / (SCALE as int)
        } else {
            0
        },
        MarginAllocation::Amount(x) => x as int,
    }
}

impl MarginBook {
    /// Reservations by asset.
    pub closed spec fn view(&self) -> Map<Seq<char>, i64> {
        self.map@
    }

    /// Sum of all reservations.
    pub closed spec fn reserved(&self) -> int {
        sum_of(self.map.items())
    }

    /// The equity on chain at the last sync.
    pub closed spec fn total(&self) -> int {
        self.total_on_chain as int
    }

    /// What an asset has reserved; zero when it has nothing.
    pub open spec fn held(&self, asset: Seq<char>) -> int {
        if self@.contains_key(asset) {
            self@[asset] as int
        } else {
            0
        }
    }

    /// On-chain total minus all reservations.
    pub open spec fn free_spec(&self) -> int {
        self.total() - self.reserved()
    }

    /// Keys are distinct, every reservation is positive and their sum fits.
    pub closed spec fn wf(&self) -> bool {
        &&& self.map.wf()
        &&& all_positive(self.map.items())
        &&& sum_of(self.map.items()) <= i64::MAX
    }

    proof fn lemma_held(&self, i: int)
        requires
            self.wf(),
            0 <= i < self.map.items().len(),
        ensures
            self.held(self.map.items()[i].0@) == self.map.items()[i].1,
    {
        lemma_map_of_at(self.map.items(), i);
    }

    pub proof fn lemma_reserved_nonneg(&self)
        requires
            self.wf(),
        ensures
            0 <= self.reserved() <= i64::MAX,
    {
        lemma_sum_prefix(self.map.items(), 0);
    }

    pub fn new() -> (r: Self)
        ensures
            r.wf(),
            r@ == Map::<Seq<char>, i64>::empty(),
            r.reserved() == 0,
            r.total() == 0,
    {
        MarginBook { map: KeyedVec::new(), total_on_chain: 0 }
    }

    pub fn total_on_chain(&self) -> (r: i64)
        ensures
            r == self.total(),
    {
        self.total_on_chain
    }

    /// Takes the equity that the exchange reports as the new on-chain total.
    pub fn sync(&mut self, total: i64)
        requires
            old(self).wf(),
        ensures
            final(self).wf(),
            final(self)@ == old(self)@,
            final(self).reserved() == old(self).reserved(),
            final(self).total() == total,
    {
        self.total_on_chain = total;
    }

    /// Sum of all reservations.
    pub fn used(&self) -> (r: i128)
        requires
            self.wf(),
        ensures
            r == self.reserved(),
    {
        let ghost s = self.map.items();
        let n = self.map.len();
        let mut acc: i128 = 0;
        let mut i: usize = 0;
        while i < n
            invariant
                s == self.map.items(),
                n == s.len(),
                self.wf(),
                i <= n,
                acc == sum_of(s.subrange(0, i as int)),
            decreases n - i,
        {
            proof {
                assert(s.subrange(0, i + 1).drop_last() =~= s.subrange(0, i as int));
                lemma_sum_prefix(s, i + 1);
            }
            acc = acc + *self.map.value_at(i) as i128;
            i = i + 1;
        }
        assert(s.subrange(0, n as int) =~= s);
        acc
    }

    /// On-chain total minus all reservations.
    pub fn free(&self) -> (r: i128)
        requires
            self.wf(),
        ensures
            r == self.free_spec(),
            r == self.total() - self.reserved(),
    {
        proof {
            self.lemma_reserved_nonneg();
        }
        self.total_on_chain as i128 - self.used()
    }

    /// Records `amount` for `asset`, replacing what it held.
    fn set_reservation(&mut self, asset: String, amount: i64)
        requires
            old(self).wf(),
            amount > 0,
            old(self).reserved() - old(self).held(asset@) + amount <= i64::MAX,
        ensures
            final(self).wf(),
            final(self)@ == old(self)@.insert(asset@, amount),
            final(self).reserved() == old(self).reserved() - old(self).held(asset@) + amount,
            final(self).total() == old(self).total(),
    {
        match self.map.find(&asset) {
            Some(i) => {
                proof {
                    self.lemma_held(i as int);
                    lemma_sum_update(self.map.items(), i as int, (asset, amount));
                }
                self.map.set_at(i, asset, amount);
            },
            None => {
                proof {
                    lemma_sum_push(self.map.items(), (asset, amount));
                }
                self.map.push_new(asset, amount);
            },
        }
    }

    /// Reserves margin for `asset` against the current on-chain total.
    pub fn allocate(&mut self, asset: String, alloc: MarginAllocation) -> (r: Result<i64, Error>)
        requires
            old(self).wf(),
        ensures
            final(self).wf(),
            final(self).total() == old(self).total(),
            requested(old(self).total() as int, alloc) <= 0 ==> r == Err::<i64, Error>(
                Error::InvalidMarginAmount,
            ),
            requested(old(self).total() as int, alloc) > 0 && requested(
                old(self).total() as int,
                alloc,
            ) > old(self).free_spec() ==> r == Err::<i64, Error>(
                Error::InsufficientFreeMargin(old(self).free_spec() as i128),
            ),
            r is Err ==> final(self)@ == old(self)@ && final(self).reserved() == old(self).reserved(),
            r is Ok <==> 0 < requested(old(self).total() as int, alloc) <= old(self).free_spec(),
            r matches Ok(m) ==> {
                &&& m == requested(old(self).total() as int, alloc)
                &&& final(self)@ == old(self)@.insert(asset@, m)
                &&& final(self).reserved() == old(self).reserved() - old(self).held(asset@) + m
                &&& final(self).reserved() <= final(self).total()
            },
    {
        let free = self.free();
        let total = self.total_on_chain;
        let req: i128 = match alloc {
            MarginAllocation::Alloc(f) => {
                if total > 0 && f > 0 {
                    proof {
                        assert(0 < (total as int) * (f as int) <= (i64::MAX as int) * (i64::MAX as int))
                            by (nonlinear_arith)
                            requires
                                0 < total <= i64::MAX,
                                0 < f <= i64::MAX,
                        ;
                    }
                    (total as i128) * (f as i128) / (SCALE as i128)
                } else {
                    0
                }
            },
            MarginAllocation::Amount(x) => x as i128,
        };
        if req <= 0 {
            return Err(Error::InvalidMarginAmount);
        }
        if req > free {
            return Err(Error::InsufficientFreeMargin(free));
        }
        proof {
            self.lemma_reserved_nonneg();
            crate::keyed::lemma_map_of_dom(self.map.items(), asset@);
            if self@.contains_key(asset@) {
                let i = choose|i: int|
                    0 <= i < self.map.items().len() && #[trigger] self.map.items()[i].0@ == asset@;
                self.lemma_held(i);
            }
        }
        let amount = req as i64;
        self.set_reservation(asset, amount);
        Ok(amount)
    }

    /// Replaces the reservation of an asset, checking the new amount against
    /// what is free once the asset's own reservation is given back.
    pub fn update_asset(&mut self, update: AssetMargin) -> (r: Result<i64, Error>)
        requires
            old(self).wf(),
        ensures
            final(self).wf(),
            final(self).total() == old(self).total(),
            update.1 <= 0 ==> r == Err::<i64, Error>(Error::InvalidMarginAmount),
            update.1 > 0 && update.1 > old(self).free_spec() + old(self).held(update.0@) ==> r
                == Err::<i64, Error>(
                Error::InsufficientFreeMargin(
                    (old(self).free_spec() + old(self).held(update.0@)) as i128,
                ),
            ),
            r is Err ==> final(self)@ == old(self)@ && final(self).reserved() == old(self).reserved(),
            r is Ok <==> 0 < update.1 <= old(self).free_spec() + old(self).held(update.0@),
            r matches Ok(m) ==> {
                &&& m == update.1
                &&& final(self)@ == old(self)@.insert(update.0@, m)
                &&& final(self).reserved() == old(self).reserved() - old(self).held(update.0@) + m
                &&& final(self).reserved() <= final(self).total()
            },
    {
        let (asset, amount) = update;
        if amount <= 0 {
            return Err(Error::InvalidMarginAmount);
        }
        let own: i64 = match self.map.get(&asset) {
            Some(v) => *v,
            None => 0,
        };
        proof {
            self.lemma_reserved_nonneg();
            if self@.contains_key(asset@) {
                let i = choose|i: int|
                    0 <= i < self.map.items().len() && #[trigger] self.map.items()[i].0@ == asset@;
                crate::keyed::lemma_map_of_dom(self.map.items(), asset@);
                self.lemma_held(i);
                lemma_sum_prefix(self.map.items(), i);
                lemma_sum_prefix(self.map.items(), i + 1);
                assert(self.map.items().subrange(0, i + 1).drop_last() =~= self.map.items().subrange(0, i));
            }
        }
        let free = self.free() + own as i128;
        if amount as i128 > free {
            return Err(Error::InsufficientFreeMargin(free));
        }
        self.set_reservation(asset, amount);
        Ok(amount)
    }

    /// Releases the reservation of `asset`.
    pub fn remove(&mut self, asset: &String)
        requires
            old(self).wf(),
        ensures
            final(self).wf(),
            final(self)@ == old(self)@.remove(asset@),
            final(self).reserved() == old(self).reserved() - old(self).held(asset@),
            final(self).total() == old(self).total(),
            old(self).reserved() <= old(self).total() ==> final(self).reserved()
                <= final(self).total(),
    {
        match self.map.find(asset) {
            Some(i) => {
                proof {
                    self.lemma_held(i as int);
                    lemma_sum_remove(self.map.items(), i as int);
                    lemma_sum_prefix(self.map.items(), i as int);
                    lemma_sum_prefix(self.map.items(), i + 1);
                    assert(self.map.items().subrange(0, i + 1).drop_last() =~= self.map.items().subrange(0, i as int));
                }
                let _ = self.map.remove_at(i);
                proof {
                    assert forall|j: int| 0 <= j < self.map.items().len() implies #[trigger] self.map.items()[j].1 > 0 by {
                        let j2 = if j < i { j } else { j + 1 };
                        assert(self.map.items()[j] == old(self).map.items()[j2]);
                    }
                }
            },
            None => {
                assert(old(self)@.remove(asset@) =~= old(self)@);
            },
        }
    }

    /// Drops every reservation.
    pub fn reset(&mut self)
        requires
            old(self).wf(),
        ensures
            final(self).wf(),
            final(self)@ == Map::<Seq<char>, i64>::empty(),
            final(self).reserved() == 0,
            final(self).total() == old(self).total(),
    {
        self.map.clear();
    }
}

} // verus!
