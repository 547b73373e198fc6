use vstd::prelude::*;

use crate::timeframe::str_equal;
use crate::trade::LiquidationFillInfo;
use crate::units::lemma_product_within;

verus! {

/// One fill of the user as the exchange reports it (fixed-point size and price).
#[derive(Debug)]
pub struct UserFill {
    pub coin: String,
    /// "A" when the user was the long taker, "B" when short.
    pub side: String,
    pub sz: u64,
    pub px: u64,
    pub liquidation: bool,
}

impl UserFill {
    pub fn duplicate(&self) -> (r: UserFill)
        ensures
            r == *self,
    {
        UserFill {
            coin: self.coin.clone(),
            side: self.side.clone(),
            sz: self.sz,
            px: self.px,
            liquidation: self.liquidation,
        }
    }
}

/// Total size of a list of fills.
pub open spec fn sum_sz(s: Seq<UserFill>) -> int
    decreases s.len(),
{
    if s.len() == 0 {
        0
    } else {
        sum_sz(s.drop_last()) + s.last().sz
    }
}

/// Total of size times price over a list of fills.
pub open spec fn sum_notional(s: Seq<UserFill>) -> int
    decreases s.len(),
{
    if s.len() == 0 {
        0
    } else {
        sum_notional(s.drop_last()) + s.last().sz * s.last().px
    }
}

/// Direction that a side code stands for: "A" long, "B" short.
pub open spec fn side_long(side: Seq<char>) -> Option<bool> {
    if side == seq!['A'] {
        Some(true)
    } else if side == seq!['B'] {
        Some(false)
    } else {
        None
    }
}

/// One liquidation from its fills: direction of the first fill, total size,
/// size-weighted average price, no order id.
pub open spec fn aggregate_spec(s: Seq<UserFill>) -> Option<LiquidationFillInfo> {
    if s.len() == 0 {
        None
    } else {
        match side_long(s[0].side@) {
            None => None,
            Some(is_long) => if 0 < sum_sz(s) <= u64::MAX {
                Some(
                    LiquidationFillInfo {
                        price: (sum_notional(s) / sum_sz(s)) as u64,
                        sz: sum_sz(s) as u64,
                        oid: 0,
                        is_long,
                    },
                )
            } else {
                None
            },
        }
    }
}

/// The liquidation fills of `coin`, in order.
pub open spec fn liq_for(s: Seq<UserFill>, coin: Seq<char>) -> Seq<UserFill>
    decreases s.len(),
{
    if s.len() == 0 {
        s
    } else if s.last().liquidation && s.last().coin@ == coin {
        liq_for(s.drop_last(), coin).push(s.last())
    } else {
        liq_for(s.drop_last(), coin)
    }
}

proof fn lemma_sum_sz_prefix(s: Seq<UserFill>, i: int)
    requires
        0 <= i <= s.len(),
    ensures
        sum_sz(s.subrange(0, i)) <= sum_sz(s),
    decreases s.len(),
{
    if i < s.len() {
        assert(s.subrange(0, i) =~= s.drop_last().subrange(0, i));
        lemma_sum_sz_prefix(s.drop_last(), i);
    } else {
        assert(s.subrange(0, i) =~= s);
    }
}

fn side_of(side: &String) -> (r: Option<bool>)
    ensures
        r == side_long(side@),
{
    proof {
        reveal_strlit("A");
        reveal_strlit("B");
        assert("A"@ =~= seq!['A']);
        assert("B"@ =~= seq!['B']);
    }
    if str_equal(side.as_str(), "A") {
        Some(true)
    } else if str_equal(side.as_str(), "B") {
        Some(false)
    } else {
        None
    }
}

/// Aggregates the fills of one liquidation. `None` when there are none, the
/// first side code is neither "A" nor "B", or the total size is zero or
/// does not fit.
pub fn aggregate_liquidation(fills: &Vec<UserFill>) -> (r: Option<LiquidationFillInfo>)
    ensures
        r == aggregate_spec(fills@),
{
    if fills.len() == 0 {
        return None;
    }
    let is_long = match side_of(&fills[0].side) {
        Some(l) => l,
        None => return None,
    };
    let max: u128 = u64::MAX as u128;
    let mut acc_sz: u128 = 0;
    let mut acc_w: u128 = 0;
    let mut i: usize = 0;
    while i < fills.len()
        invariant
            i <= fills@.len(),
            max == u64::MAX,
            acc_sz == sum_sz(fills@.subrange(0, i as int)),
            acc_w == sum_notional(fills@.subrange(0, i as int)),
            acc_sz <= u64::MAX,
            0 <= acc_w <= acc_sz * u64::MAX,
        decreases fills.len() - i,
    {
        proof {
            assert(fills@.subrange(0, i + 1).drop_last() =~= fills@.subrange(0, i as int));
        }
        let sz = fills[i].sz as u128;
        let px = fills[i].px as u128;
        let new_sz = acc_sz + sz;
        if new_sz > max {
            proof {
                lemma_sum_sz_prefix(fills@, i + 1);
            }
            return None;
        }
        proof {
            lemma_product_within(sz as int, u64::MAX as int, px as int, u64::MAX as int);
            lemma_product_within(sz as int, sz as int, px as int, u64::MAX as int);
            assert(acc_sz * u64::MAX + sz * u64::MAX == new_sz * u64::MAX) by (nonlinear_arith)
                requires
                    new_sz == acc_sz + sz,
            ;
            lemma_product_within(new_sz as int, u64::MAX as int, u64::MAX as int, u64::MAX as int);
        }
        acc_w = acc_w + sz * px;
        acc_sz = new_sz;
        i = i + 1;
    }
    assert(fills@.subrange(0, fills@.len() as int) =~= fills@);
    if acc_sz == 0 {
        return None;
    }
    proof {
        vstd::arithmetic::div_mod::lemma_div_is_ordered(acc_w as int, acc_sz * u64::MAX, acc_sz as int);
        vstd::arithmetic::div_mod::lemma_div_multiples_vanish(u64::MAX as int, acc_sz as int);
        assert(acc_sz * u64::MAX == u64::MAX * acc_sz) by (nonlinear_arith);
        vstd::arithmetic::div_mod::lemma_div_pos_is_pos(acc_w as int, acc_sz as int);
    }
    let avg = acc_w / acc_sz;
    Some(LiquidationFillInfo { price: avg as u64, sz: acc_sz as u64, oid: 0, is_long })
}

/// Whether `c` is among the texts of `seen`.
pub open spec fn listed(seen: Seq<String>, c: Seq<char>) -> bool {
    exists|s: int| 0 <= s < seen.len() && #[trigger] seen[s]@ == c
}

/// The liquidation fills of `coin`, in order.
pub fn liquidations_for(fills: &Vec<UserFill>, coin: &String) -> (r: Vec<UserFill>)
    ensures
        r@ == liq_for(fills@, coin@),
{
    let mut r: Vec<UserFill> = Vec::new();
    let mut i: usize = 0;
    while i < fills.len()
        invariant
            i <= fills@.len(),
            r@ == liq_for(fills@.subrange(0, i as int), coin@),
        decreases fills.len() - i,
    {
        proof {
            assert(fills@.subrange(0, i + 1).drop_last() =~= fills@.subrange(0, i as int));
        }
        if fills[i].liquidation && fills[i].coin == *coin {
            r.push(fills[i].duplicate());
        }
        i = i + 1;
    }
    assert(fills@.subrange(0, fills@.len() as int) =~= fills@);
    r
}

/// Groups a batch of fills by coin, keeps the liquidations and aggregates
/// each coin's into one liquidation.
pub fn group_liquidations(fills: &Vec<UserFill>) -> (r: Vec<(String, LiquidationFillInfo)>)
    ensures
        forall|j: int| 0 <= j < r@.len() ==> aggregate_spec(liq_for(fills@, (#[trigger] r@[j]).0@)) == Some(r@[j].1),
        forall|j: int, k: int| 0 <= j < r@.len() && 0 <= k < r@.len() && j != k ==> (#[trigger] r@[j]).0@ != (#[trigger] r@[k]).0@,
        forall|i: int| 0 <= i < fills@.len() && (#[trigger] fills@[i]).liquidation && aggregate_spec(liq_for(fills@, fills@[i].coin@)) is Some
            ==> exists|j: int| 0 <= j < r@.len() && #[trigger] r@[j].0@ == fills@[i].coin@,
{
    let mut seen: Vec<String> = Vec::new();
    let mut r: Vec<(String, LiquidationFillInfo)> = Vec::new();
    let mut i: usize = 0;
    while i < fills.len()
        invariant
            i <= fills@.len(),
            forall|j: int| 0 <= j < r@.len() ==> aggregate_spec(liq_for(fills@, (#[trigger] r@[j]).0@)) == Some(r@[j].1),
            forall|j: int| 0 <= j < r@.len() ==> listed(seen@, (#[trigger] r@[j]).0@),
            forall|j: int, k: int| 0 <= j < r@.len() && 0 <= k < r@.len() && j != k ==> (#[trigger] r@[j]).0@ != (#[trigger] r@[k]).0@,
            forall|a: int| 0 <= a < i && (#[trigger] fills@[a]).liquidation ==> listed(seen@, fills@[a].coin@),
            forall|s: int| 0 <= s < seen@.len() && aggregate_spec(liq_for(fills@, (#[trigger] seen@[s])@)) is Some
                ==> exists|j: int| 0 <= j < r@.len() && #[trigger] r@[j].0@ == seen@[s]@,
        decreases fills.len() - i,
    {
        if fills[i].liquidation {
            let coin = &fills[i].coin;
            let mut known = false;
            let mut s: usize = 0;
            while s < seen.len()
                invariant
                    s <= seen@.len(),
                    known <==> listed(seen@.subrange(0, s as int), coin@),
                decreases seen.len() - s,
            {
                proof {
                    let p = seen@.subrange(0, s as int);
                    let q = seen@.subrange(0, s + 1);
                    if listed(p, coin@) {
                        let t = choose|t: int| 0 <= t < p.len() && #[trigger] p[t]@ == coin@;
                        assert(q[t] == p[t]);
                    }
                    if listed(q, coin@) && !listed(p, coin@) {
                        let t = choose|t: int| 0 <= t < q.len() && #[trigger] q[t]@ == coin@;
                        if t < s {
                            assert(p[t] == q[t]);
                        }
                    }
                    assert(q[s as int] == seen@[s as int]);
                }
                if seen[s] == *coin {
                    known = true;
                }
                s = s + 1;
            }
            proof {
                assert(seen@.subrange(0, seen@.len() as int) =~= seen@);
            }
            if !known {
                let ghost seen_before = seen@;
                let ghost r_before = r@;
                seen.push(coin.clone());
                let group = liquidations_for(fills, coin);
                match aggregate_liquidation(&group) {
                    Some(info) => {
                        r.push((coin.clone(), info));
                        proof {
                            assert forall|j: int| 0 <= j < r@.len() implies listed(seen@, (#[trigger] r@[j]).0@) by {
                                if j < r_before.len() {
                                    assert(r@[j] == r_before[j]);
                                    assert(listed(seen_before, r_before[j].0@));
                                    let s = choose|s: int| 0 <= s < seen_before.len() && #[trigger] seen_before[s]@ == r_before[j].0@;
                                    assert(seen@[s] == seen_before[s]);
                                } else {
                                    assert(seen@[seen_before.len() as int]@ == r@[j].0@);
                                }
                            }
                            assert forall|j: int, k: int| 0 <= j < r@.len() && 0 <= k < r@.len() && j != k implies (#[trigger] r@[j]).0@ != (#[trigger] r@[k]).0@ by {
                                if j == r_before.len() && k < r_before.len() {
                                    assert(r@[k] == r_before[k]);
                                    assert(listed(seen_before, r_before[k].0@));
                                } else if k == r_before.len() && j < r_before.len() {
                                    assert(r@[j] == r_before[j]);
                                    assert(listed(seen_before, r_before[j].0@));
                                } else if j < r_before.len() && k < r_before.len() {
                                    assert(r@[j] == r_before[j] && r@[k] == r_before[k]);
                                }
                            }
                            assert forall|t: int| 0 <= t < seen@.len() && aggregate_spec(liq_for(fills@, (#[trigger] seen@[t])@)) is Some
                                implies exists|j: int| 0 <= j < r@.len() && #[trigger] r@[j].0@ == seen@[t]@ by {
                                if t < seen_before.len() {
                                    assert(seen@[t] == seen_before[t]);
                                    let j = choose|j: int| 0 <= j < r_before.len() && #[trigger] r_before[j].0@ == seen_before[t]@;
                                    assert(r@[j] == r_before[j]);
                                } else {
                                    assert(r@[r_before.len() as int].0@ == seen@[t]@);
                                }
                            }
                        }
                    },
                    None => {
                        proof {
                            assert forall|j: int| 0 <= j < r@.len() implies listed(seen@, (#[trigger] r@[j]).0@) by {
                                assert(listed(seen_before, r_before[j].0@));
                                let s = choose|s: int| 0 <= s < seen_before.len() && #[trigger] seen_before[s]@ == r_before[j].0@;
                                assert(seen@[s] == seen_before[s]);
                            }
                            assert forall|t: int| 0 <= t < seen@.len() && aggregate_spec(liq_for(fills@, (#[trigger] seen@[t])@)) is Some
                                implies exists|j: int| 0 <= j < r@.len() && #[trigger] r@[j].0@ == seen@[t]@ by {
                                if t < seen_before.len() {
                                    assert(seen@[t] == seen_before[t]);
                                }
                            }
                        }
                    },
                }
                proof {
                    assert forall|a: int| 0 <= a < i + 1 && (#[trigger] fills@[a]).liquidation implies listed(seen@, fills@[a].coin@) by {
                        if a < i {
                            assert(listed(seen_before, fills@[a].coin@));
                            let s = choose|s: int| 0 <= s < seen_before.len() && #[trigger] seen_before[s]@ == fills@[a].coin@;
                            assert(seen@[s] == seen_before[s]);
                        } else {
                            assert(seen@[seen_before.len() as int]@ == fills@[a].coin@);
                        }
                    }
                }
            }
        }
        i = i + 1;
    }
    proof {
        assert forall|a: int| 0 <= a < fills@.len() && (#[trigger] fills@[a]).liquidation && aggregate_spec(liq_for(fills@, fills@[a].coin@)) is Some
            implies exists|j: int| 0 <= j < r@.len() && #[trigger] r@[j].0@ == fills@[a].coin@ by {
            assert(listed(seen@, fills@[a].coin@));
            let s = choose|s: int| 0 <= s < seen@.len() && #[trigger] seen@[s]@ == fills@[a].coin@;
        }
    }
    r
}

} // verus!
