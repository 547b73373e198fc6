use vstd::prelude::*;

use crate::error::Error;
use crate::keyed::KeyedVec;
use crate::margin::{MarginAllocation, MarginBook, requested};
use crate::market::MarketInfo;

verus! {

/// What `str::trim` leaves of a text.
pub uninterp spec fn trimmed(s: Seq<char>) -> Seq<char>;

/// What `str::to_uppercase` makes of a text.
pub uninterp spec fn upper(s: Seq<char>) -> Seq<char>;

/// Relies on `str::trim`: the text without leading and trailing white space.
#[verifier::external_body]
fn trim_text(s: &str) -> (r: &str)
    ensures
        r@ == trimmed(s@),
{
    s.trim()
}

/// Relies on `str::to_uppercase`: the upper-case form of the text.
#[verifier::external_body]
fn upper_text(s: &str) -> (r: String)
    ensures
        r@ == upper(s@),
{
    s.to_uppercase()
}

/// The symbol under which an asset is kept: trimmed, then upper-cased.
pub open spec fn canonical(s: Seq<char>) -> Seq<char> {
    upper(trimmed(s))
}

/// Canonical form of an asset symbol.
pub fn canonical_asset(s: &str) -> (r: String)
    ensures
        r@ == canonical(s@),
{
    upper_text(trim_text(s))
}

/// The supervisor's state as the contracts see it.
pub ghost struct BotView {
    /// Assets with a live market.
    pub markets: Set<Seq<char>>,
    /// Candle subscription of each market.
    pub subs: Map<Seq<char>, u32>,
    /// Snapshot shipped to the frontend.
    pub session: Map<Seq<char>, MarketInfo>,
    /// Margin reservations, their sum and the on-chain total.
    pub book: Map<Seq<char>, i64>,
    pub reserved: int,
    pub total: int,
    /// Tradable assets.
    pub known: Set<Seq<char>>,
}

pub open spec fn held_in(book: Map<Seq<char>, i64>, key: Seq<char>) -> int {
    if book.contains_key(key) {
        book[key] as int
    } else {
        0
    }
}

/// Every subscription, snapshot row and reservation belongs to a live market.
pub open spec fn view_consistent(v: BotView) -> bool {
    &&& forall|k: Seq<char>| #[trigger] v.subs.contains_key(k) ==> v.markets.contains(k)
    &&& forall|k: Seq<char>| #[trigger] v.session.contains_key(k) ==> v.markets.contains(k)
    &&& forall|k: Seq<char>| #[trigger] v.book.contains_key(k) ==> v.markets.contains(k)
}

/// Adding the market `key`: nothing happens for a market already present or
/// an unknown asset; otherwise the book takes `equity` as its total and, when
/// the allocation fits, the market and its reservation are recorded.
pub open spec fn add_spec(v: BotView, key: Seq<char>, alloc: MarginAllocation, equity: int) -> BotView {
    if v.markets.contains(key) || !v.known.contains(key) {
        v
    } else {
        let req = requested(equity, alloc);
        if 0 < req <= equity - v.reserved {
            BotView {
                markets: v.markets.insert(key),
                book: v.book.insert(key, req as i64),
                reserved: v.reserved - held_in(v.book, key) + req,
                total: equity,
                ..v
            }
        } else {
            BotView { total: equity, ..v }
        }
    }
}

/// Recording the candle subscription of a live market.
pub open spec fn confirm_spec(v: BotView, key: Seq<char>, sub: u32) -> BotView {
    if v.markets.contains(key) {
        BotView { subs: v.subs.insert(key, sub), ..v }
    } else {
        v
    }
}

/// Removing the market `key`, which must hold a subscription.
pub open spec fn remove_spec(v: BotView, key: Seq<char>) -> BotView {
    if v.subs.contains_key(key) {
        BotView {
            markets: v.markets.remove(key),
            subs: v.subs.remove(key),
            session: v.session.remove(key),
            book: v.book.remove(key),
            reserved: v.reserved - held_in(v.book, key),
            ..v
        }
    } else {
        v
    }
}

/// Adding a market that is already present changes nothing: no second
/// subscription and no second reservation.
pub proof fn lemma_add_twice(
    v: BotView,
    key: Seq<char>,
    alloc: MarginAllocation,
    equity: int,
    alloc2: MarginAllocation,
    equity2: int,
)
    ensures
        add_spec(v, key, alloc, equity).markets.contains(key) ==> add_spec(
            add_spec(v, key, alloc, equity),
            key,
            alloc2,
            equity2,
        ) == add_spec(v, key, alloc, equity),
{
}

/// Adding a market, removing it and adding it again, with the same equity,
/// allocation and subscription id, ends where the first addition ended.
pub proof fn lemma_add_remove_add(v: BotView, key: Seq<char>, alloc: MarginAllocation, equity: i64, sub: u32)
    requires
        view_consistent(v),
        0 <= v.reserved,
        !v.markets.contains(key),
    ensures
        ({
            let added = confirm_spec(add_spec(v, key, alloc, equity as int), key, sub);
            confirm_spec(add_spec(remove_spec(added, key), key, alloc, equity as int), key, sub) == added
        }),
{
    let e = equity as int;
    let added = confirm_spec(add_spec(v, key, alloc, e), key, sub);
    let removed = remove_spec(added, key);
    let again = confirm_spec(add_spec(removed, key, alloc, e), key, sub);
    assert(!v.subs.contains_key(key));
    assert(!v.session.contains_key(key));
    assert(!v.book.contains_key(key));
    if added.markets.contains(key) {
        let req = requested(e, alloc);
        assert(0 < req <= e - v.reserved);
        assert(held_in(added.book, key) == req);
        assert(removed.markets =~= v.markets);
        assert(removed.subs =~= v.subs);
        assert(removed.session =~= v.session);
        assert(removed.book =~= v.book);
        assert(removed.reserved == v.reserved);
        assert(removed == BotView { total: e, ..v });
        assert(again.markets =~= added.markets);
        assert(again.subs =~= added.subs);
        assert(again.book =~= added.book);
        assert(again.session =~= added.session);
    }
}

/// The fleet supervisor's bookkeeping: live markets, their candle
/// subscriptions, the session snapshot and the margin book.
pub struct Bot {
    markets: KeyedVec<()>,
    candle_subs: KeyedVec<u32>,
    session: KeyedVec<MarketInfo>,
    margin_book: MarginBook,
    known: Vec<String>,
}

/// Outcome of adding a market.
pub enum AddOutcome {
    /// The market was already there; nothing changed.
    AlreadyPresent,
    /// The market was recorded under `asset` with `margin` reserved.
    Added { asset: String, margin: i64 },
}

impl Bot {
    pub closed spec fn view(&self) -> BotView {
        BotView {
            markets: self.markets@.dom(),
            subs: self.candle_subs@,
            session: self.session@,
            book: self.margin_book@,
            reserved: self.margin_book.reserved(),
            total: self.margin_book.total(),
            known: self.known@.map_values(|s: String| s@).to_set(),
        }
    }

    pub closed spec fn wf(&self) -> bool {
        &&& self.markets.wf()
        &&& self.candle_subs.wf()
        &&& self.session.wf()
        &&& self.margin_book.wf()
        &&& view_consistent(self.view())
    }

    /// What a well-formed supervisor guarantees of its view: every
    /// subscription, snapshot row and reservation belongs to a live market,
    /// and the reserved sum is not negative.
    pub proof fn lemma_wf_view(&self)
        requires
            self.wf(),
        ensures
            view_consistent(self@),
            0 <= self@.reserved,
    {
        self.margin_book.lemma_reserved_nonneg();
    }

    /// A supervisor with no markets, trading only the assets of `known`.
    pub fn new(known: Vec<String>) -> (r: Self)
        ensures
            r.wf(),
            r@.markets == Set::<Seq<char>>::empty(),
            r@.subs == Map::<Seq<char>, u32>::empty(),
            r@.session == Map::<Seq<char>, MarketInfo>::empty(),
            r@.book == Map::<Seq<char>, i64>::empty(),
            r@.reserved == 0,
            r@.known == known@.map_values(|s: String| s@).to_set(),
    {
        let r = Bot {
            markets: KeyedVec::new(),
            candle_subs: KeyedVec::new(),
            session: KeyedVec::new(),
            margin_book: MarginBook::new(),
            known,
        };
        assert(r@.markets =~= Set::<Seq<char>>::empty());
        r
    }

    fn is_known(&self, key: &String) -> (r: bool)
        ensures
            r == self@.known.contains(key@),
    {
        let mut i: usize = 0;
        while i < self.known.len()
            invariant
                i <= self.known@.len(),
                forall|j: int| 0 <= j < i ==> #[trigger] self.known@[j]@ != key@,
            decreases self.known.len() - i,
        {
            if self.known[i] == *key {
                proof {
                    assert(self.known@.map_values(|s: String| s@)[i as int] == key@);
                }
                return true;
            }
            i = i + 1;
        }
        proof {
            if self@.known.contains(key@) {
                let s = self.known@.map_values(|s: String| s@);
                let j = choose|j: int| 0 <= j < s.len() && s[j] == key@;
                assert(self.known@[j]@ == key@);
            }
        }
        false
    }

    /// Whether a market for `asset` (in any spelling) is live.
    pub fn has_market(&self, asset: &str) -> (r: bool)
        requires
            self.wf(),
        ensures
            r == self@.markets.contains(canonical(asset@)),
    {
        let key = canonical_asset(asset);
        self.markets.contains(&key)
    }

    /// Starts adding the market of `asset`: a duplicate is a no-op, an
    /// unknown asset is refused, otherwise the book is synced to `equity` and
    /// the margin allocated; on success the market is recorded.
    pub fn add_market(&mut self, asset: &str, alloc: MarginAllocation, equity: i64) -> (r: Result<AddOutcome, Error>)
        requires
            old(self).wf(),
        ensures
            final(self).wf(),
            final(self)@ == add_spec(old(self)@, canonical(asset@), alloc, equity as int),
            old(self)@.markets.contains(canonical(asset@)) ==> r matches Ok(AddOutcome::AlreadyPresent),
            !old(self)@.markets.contains(canonical(asset@)) && !old(self)@.known.contains(canonical(asset@))
                ==> r == Err::<AddOutcome, Error>(Error::AssetNotFound),
            r matches Ok(AddOutcome::Added { asset: a, margin: m }) ==> a@ == canonical(asset@) && m
                == requested(equity as int, alloc) && final(self)@.markets.contains(a@),
            !old(self)@.markets.contains(canonical(asset@)) && old(self)@.known.contains(canonical(asset@))
                ==> (r is Ok <==> 0 < requested(equity as int, alloc) <= equity - old(self)@.reserved),
    {
        let key = canonical_asset(asset);
        if self.markets.contains(&key) {
            return Ok(AddOutcome::AlreadyPresent);
        }
        if !self.is_known(&key) {
            return Err(Error::AssetNotFound);
        }
        self.margin_book.sync(equity);
        let margin = match self.margin_book.allocate(key.clone(), alloc) {
            Ok(m) => m,
            Err(e) => {
                proof {
                    assert(self@.markets =~= old(self)@.markets);
                    assert(self@ == BotView { total: equity as int, ..old(self)@ });
                }
                return Err(e);
            },
        };
        self.markets.insert(key.clone(), ());
        proof {
            assert(self@.markets =~= old(self)@.markets.insert(key@));
        }
        Ok(AddOutcome::Added { asset: key, margin })
    }

    /// Records the candle subscription of a live market; `false` when the
    /// market is not live.
    pub fn confirm_market(&mut self, asset: String, sub_id: u32) -> (r: bool)
        requires
            old(self).wf(),
        ensures
            final(self).wf(),
            r == old(self)@.markets.contains(asset@),
            final(self)@ == confirm_spec(old(self)@, asset@, sub_id),
    {
        if !self.markets.contains(&asset) {
            return false;
        }
        let ghost key = asset@;
        self.candle_subs.insert(asset, sub_id);
        proof {
            assert(self@.markets == old(self)@.markets);
            assert(self@.session == old(self)@.session);
            assert(self@.book == old(self)@.book);
            assert forall|k: Seq<char>| #[trigger] self@.subs.contains_key(k) implies self@.markets.contains(k) by {
                if k != key {
                    assert(old(self)@.subs.contains_key(k));
                }
            }
        }
        true
    }

    /// Removes the market of `asset` with its subscription, snapshot row and
    /// reservation. Returns the subscription to cancel; `None`, and nothing
    /// changed, when the asset has none (a market without a subscription is
    /// still being added, and `cancel_add` is what undoes it).
    pub fn remove_market(&mut self, asset: &str) -> (r: Option<u32>)
        requires
            old(self).wf(),
        ensures
            final(self).wf(),
            final(self)@ == remove_spec(old(self)@, canonical(asset@)),
            r is Some <==> old(self)@.subs.contains_key(canonical(asset@)),
            r matches Some(id) ==> id == old(self)@.subs[canonical(asset@)],
    {
        let key = canonical_asset(asset);
        let sub = self.candle_subs.remove(&key);
        match sub {
            None => {
                proof {
                    assert(self@.subs =~= old(self)@.subs);
                    assert(self@ == old(self)@);
                }
                None
            },
            Some(id) => {
                let _ = self.markets.remove(&key);
                let _ = self.session.remove(&key);
                self.margin_book.remove(&key);
                proof {
                    let (o, f) = (old(self)@, self@);
                    assert(f.markets =~= o.markets.remove(key@));
                    assert forall|k: Seq<char>| #[trigger] f.subs.contains_key(k) implies f.markets.contains(k) by {
                        assert(o.subs.contains_key(k));
                    }
                    assert forall|k: Seq<char>| #[trigger] f.session.contains_key(k) implies f.markets.contains(k) by {
                        assert(o.session.contains_key(k));
                    }
                    assert forall|k: Seq<char>| #[trigger] f.book.contains_key(k) implies f.markets.contains(k) by {
                        assert(o.book.contains_key(k));
                    }
                }
                Some(id)
            },
        }
    }

    /// Undoes an addition that could not be completed: the market and its
    /// reservation go; a market that already has a subscription stays.
    pub fn cancel_add(&mut self, asset: &String) -> (r: bool)
        requires
            old(self).wf(),
        ensures
            final(self).wf(),
            r == (old(self)@.markets.contains(asset@) && !old(self)@.subs.contains_key(asset@)),
            r ==> final(self)@ == (BotView {
                markets: old(self)@.markets.remove(asset@),
                session: old(self)@.session.remove(asset@),
                book: old(self)@.book.remove(asset@),
                reserved: old(self)@.reserved - held_in(old(self)@.book, asset@),
                ..old(self)@
            }),
            !r ==> final(self)@ == old(self)@,
    {
        if !self.markets.contains(asset) || self.candle_subs.contains(asset) {
            return false;
        }
        let _ = self.markets.remove(asset);
        let _ = self.session.remove(asset);
        self.margin_book.remove(asset);
        proof {
            let (o, f) = (old(self)@, self@);
            assert(f.markets =~= o.markets.remove(asset@));
            assert(f.subs == o.subs);
            assert forall|k: Seq<char>| #[trigger] f.subs.contains_key(k) implies f.markets.contains(k) by {
                assert(o.subs.contains_key(k));
            }
            assert forall|k: Seq<char>| #[trigger] f.session.contains_key(k) implies f.markets.contains(k) by {
                assert(o.session.contains_key(k));
            }
            assert forall|k: Seq<char>| #[trigger] f.book.contains_key(k) implies f.markets.contains(k) by {
                assert(o.book.contains_key(k));
            }
        }
        true
    }

    /// Gives back the reservation of a market whose worker failed.
    pub fn release_margin(&mut self, asset: &String)
        requires
            old(self).wf(),
        ensures
            final(self).wf(),
            final(self)@ == (BotView {
                book: old(self)@.book.remove(asset@),
                reserved: old(self)@.reserved - held_in(old(self)@.book, asset@),
                ..old(self)@
            }),
    {
        self.margin_book.remove(asset);
        proof {
            assert(self@.markets == old(self)@.markets);
            assert(self@.subs == old(self)@.subs);
            assert(self@.session == old(self)@.session);
            assert forall|k: Seq<char>| #[trigger] self@.book.contains_key(k) implies self@.markets.contains(k) by {
                assert(old(self)@.book.contains_key(k));
            }
        }
    }

    /// Closes every market: returns the subscriptions to cancel and the
    /// markets to close, and leaves no market, subscription, snapshot row or
    /// reservation behind.
    pub fn close_all(&mut self) -> (r: (Vec<u32>, Vec<String>))
        requires
            old(self).wf(),
        ensures
            final(self).wf(),
            final(self)@.markets == Set::<Seq<char>>::empty(),
            final(self)@.subs == Map::<Seq<char>, u32>::empty(),
            final(self)@.session == Map::<Seq<char>, MarketInfo>::empty(),
            final(self)@.book == Map::<Seq<char>, i64>::empty(),
            final(self)@.reserved == 0,
            final(self)@.total == old(self)@.total,
            final(self)@.known == old(self)@.known,
            forall|k: Seq<char>| old(self)@.subs.contains_key(k) ==> r.0@.contains(#[trigger] old(self)@.subs[k]),
            forall|k: Seq<char>| #[trigger] old(self)@.markets.contains(k) ==> r.1@.map_values(|s: String| s@).contains(k),
    {
        let mut ids: Vec<u32> = Vec::new();
        let n = self.candle_subs.len();
        let mut i: usize = 0;
        while i < n
            invariant
                n == self.candle_subs.items().len(),
                i <= n,
                ids@.len() == i,
                forall|j: int| 0 <= j < i ==> #[trigger] ids@[j] == self.candle_subs.items()[j].1,
            decreases n - i,
        {
            ids.push(*self.candle_subs.value_at(i));
            i = i + 1;
        }
        proof {
            assert forall|k: Seq<char>| old(self)@.subs.contains_key(k) implies ids@.contains(#[trigger] old(self)@.subs[k]) by {
                crate::keyed::lemma_map_of_dom(self.candle_subs.items(), k);
                let j = choose|j: int| 0 <= j < self.candle_subs.items().len() && #[trigger] self.candle_subs.items()[j].0@ == k;
                crate::keyed::lemma_map_of_at(self.candle_subs.items(), j);
                assert(ids@[j] == old(self)@.subs[k]);
            }
        }
        let assets = self.markets.keys();
        proof {
            assert forall|k: Seq<char>| #[trigger] old(self)@.markets.contains(k) implies assets@.map_values(|s: String| s@).contains(k) by {
                crate::keyed::lemma_map_of_dom(self.markets.items(), k);
                let j = choose|j: int| 0 <= j < self.markets.items().len() && #[trigger] self.markets.items()[j].0@ == k;
                assert(assets@.map_values(|s: String| s@)[j] == k);
            }
        }
        self.candle_subs.clear();
        self.markets.clear();
        self.session.clear();
        self.margin_book.reset();
        proof {
            assert(self@.markets =~= Set::<Seq<char>>::empty());
        }
        (ids, assets)
    }

    /// Records the snapshot of a market that has started; ignored when the
    /// market is no longer live.
    pub fn on_init_market(&mut self, info: MarketInfo) -> (r: bool)
        requires
            old(self).wf(),
        ensures
            final(self).wf(),
            r == old(self)@.markets.contains(info.asset@),
            r ==> final(self)@ == (BotView { session: old(self)@.session.insert(info.asset@, info), ..old(self)@ }),
            !r ==> final(self)@ == old(self)@,
    {
        if !self.markets.contains(&info.asset) {
            return false;
        }
        let key = info.asset.clone();
        self.session.insert(key, info);
        proof {
            assert(self@.markets == old(self)@.markets);
            assert(self@.subs == old(self)@.subs);
            assert(self@.book == old(self)@.book);
            assert forall|k: Seq<char>| #[trigger] self@.session.contains_key(k) implies self@.markets.contains(k) by {
                if k != key@ {
                    assert(old(self)@.session.contains_key(k));
                }
            }
        }
        true
    }

    /// Routes a margin change reported by a market through the book; refused
    /// for an asset without a live market.
    pub fn market_margin_update(&mut self, asset: String, margin: i64) -> (r: Result<i64, Error>)
        requires
            old(self).wf(),
        ensures
            final(self).wf(),
            !old(self)@.markets.contains(asset@) ==> r == Err::<i64, Error>(Error::AssetNotFound)
                && final(self)@ == old(self)@,
            old(self)@.markets.contains(asset@) ==> (r is Ok <==> 0 < margin <= old(self)@.total
                - old(self)@.reserved + held_in(old(self)@.book, asset@)),
            r is Err ==> final(self)@ == old(self)@,
            r matches Ok(m) ==> m == margin && final(self)@ == (BotView {
                book: old(self)@.book.insert(asset@, margin),
                reserved: old(self)@.reserved - held_in(old(self)@.book, asset@) + margin,
                ..old(self)@
            }),
            r is Ok ==> final(self)@.reserved <= final(self)@.total,
    {
        if !self.markets.contains(&asset) {
            return Err(Error::AssetNotFound);
        }
        let ghost key = asset@;
        let r = self.margin_book.update_asset((asset, margin));
        proof {
            assert(self@.markets == old(self)@.markets);
            assert(self@.subs == old(self)@.subs);
            assert(self@.session == old(self)@.session);
            if r is Ok {
                assert forall|k: Seq<char>| #[trigger] self@.book.contains_key(k) implies self@.markets.contains(k) by {
                    if k != key {
                        assert(old(self)@.book.contains_key(k));
                    }
                }
            }
        }
        r
    }

    /// Takes the equity reported by the exchange and returns the free margin.
    pub fn sync_margin(&mut self, equity: i64) -> (r: i128)
        requires
            old(self).wf(),
        ensures
            final(self).wf(),
            final(self)@ == (BotView { total: equity as int, ..old(self)@ }),
            r == equity - old(self)@.reserved,
    {
        self.margin_book.sync(equity);
        self.margin_book.free()
    }

    /// The canonical key of `asset` when it has a live market.
    pub fn route(&self, asset: &str) -> (r: Option<String>)
        requires
            self.wf(),
        ensures
            r is Some <==> self@.markets.contains(canonical(asset@)),
            r matches Some(k) ==> k@ == canonical(asset@),
    {
        let key = canonical_asset(asset);
        if self.markets.contains(&key) {
            Some(key)
        } else {
            None
        }
    }

    /// Flips the paused flag of a market's snapshot row. Returns whether the
    /// market is live (its worker is then to be toggled too).
    pub fn toggle_market(&mut self, asset: &str) -> (r: Option<String>)
        requires
            old(self).wf(),
        ensures
            final(self).wf(),
            r is Some <==> old(self)@.markets.contains(canonical(asset@)),
            r matches Some(k) ==> k@ == canonical(asset@),
            final(self)@.markets == old(self)@.markets,
            final(self)@.subs == old(self)@.subs,
            final(self)@.book == old(self)@.book,
            final(self)@.reserved == old(self)@.reserved,
            final(self)@.total == old(self)@.total,
            final(self)@.session.dom() == old(self)@.session.dom(),
            forall|k: Seq<char>| #[trigger] final(self)@.session.contains_key(k) ==> final(self)@.session[k].is_paused
                == if k == canonical(asset@) {
                    !old(self)@.session[k].is_paused
                } else {
                    old(self)@.session[k].is_paused
                },
    {
        let key = canonical_asset(asset);
        if !self.markets.contains(&key) {
            return None;
        }
        match self.session.find(&key) {
            Some(i) => {
                let mut info = self.session.value_at(i).clone();
                proof {
                    crate::keyed::lemma_map_of_at(self.session.items(), i as int);
                }
                let paused = !self.session.value_at(i).is_paused;
                info.is_paused = paused;
                self.session.set_at(i, key.clone(), info);
                proof {
                    assert(self@.session.dom() =~= old(self)@.session.dom());
                    assert(self@.markets == old(self)@.markets);
                    assert(self@.subs == old(self)@.subs);
                    assert(self@.book == old(self)@.book);
                    assert forall|k: Seq<char>| #[trigger] self@.session.contains_key(k) implies self@.markets.contains(k) by {
                        assert(old(self)@.session.contains_key(k));
                    }
                }
            },
            None => {},
        }
        Some(key)
    }

    /// Marks every snapshot row as paused.
    pub fn pause_session(&mut self)
        requires
            old(self).wf(),
        ensures
            final(self).wf(),
            final(self)@.markets == old(self)@.markets,
            final(self)@.subs == old(self)@.subs,
            final(self)@.book == old(self)@.book,
            final(self)@.reserved == old(self)@.reserved,
            final(self)@.total == old(self)@.total,
            final(self)@.session.dom() == old(self)@.session.dom(),
            forall|k: Seq<char>| #[trigger] final(self)@.session.contains_key(k) ==> final(self)@.session[k].is_paused,
    {
        let n = self.session.len();
        let mut i: usize = 0;
        while i < n
            invariant
                n == self.session.items().len(),
                n == old(self).session.items().len(),
                i <= n,
                self.wf(),
                old(self).wf(),
                self@.markets == old(self)@.markets,
                self@.subs == old(self)@.subs,
                self@.book == old(self)@.book,
                self@.reserved == old(self)@.reserved,
                self@.total == old(self)@.total,
                self@.session.dom() == old(self)@.session.dom(),
                forall|j: int| 0 <= j < i ==> (#[trigger] self.session.items()[j]).1.is_paused,
                forall|j: int| 0 <= j < n ==> (#[trigger] self.session.items()[j]).0@ == old(self).session.items()[j].0@,
            decreases n - i,
        {
            let key = self.session.items_key(i);
            let mut info = self.session.value_at(i).clone();
            info.is_paused = true;
            self.session.set_at(i, key, info);
            proof {
                assert(self@.session.dom() =~= old(self)@.session.dom()) by {
                    crate::keyed::lemma_map_of_at(old(self).session.items(), i as int);
                }
            }
            i = i + 1;
        }
        proof {
            assert forall|k: Seq<char>| #[trigger] self@.session.contains_key(k) implies self@.session[k].is_paused by {
                crate::keyed::lemma_map_of_dom(self.session.items(), k);
                let j = choose|j: int| 0 <= j < self.session.items().len() && #[trigger] self.session.items()[j].0@ == k;
                crate::keyed::lemma_map_of_at(self.session.items(), j);
            }
        }
    }

    /// The live markets.
    pub fn get_markets(&self) -> (r: Vec<String>)
        requires
            self.wf(),
        ensures
            forall|j: int| 0 <= j < r@.len() ==> self@.markets.contains(#[trigger] r@[j]@),
            forall|k: Seq<char>| #[trigger] self@.markets.contains(k) ==> exists|j: int| 0 <= j < r@.len() && #[trigger] r@[j]@ == k,
    {
        let r = self.markets.keys();
        proof {
            assert forall|j: int| 0 <= j < r@.len() implies self@.markets.contains(#[trigger] r@[j]@) by {
                crate::keyed::lemma_map_of_at(self.markets.items(), j);
            }
            assert forall|k: Seq<char>| #[trigger] self@.markets.contains(k) implies exists|j: int| 0 <= j < r@.len() && #[trigger] r@[j]@ == k by {
                crate::keyed::lemma_map_of_dom(self.markets.items(), k);
                let j = choose|j: int| 0 <= j < self.markets.items().len() && #[trigger] self.markets.items()[j].0@ == k;
                assert(r@[j]@ == k);
            }
        }
        r
    }

    /// The snapshot rows, one per market that has started.
    pub fn get_session(&self) -> (r: Vec<MarketInfo>)
        requires
            self.wf(),
        ensures
            r@.len() == self@.session.len(),
    {
        proof {
            crate::keyed::lemma_map_of_len(self.session.items());
        }
        let mut r: Vec<MarketInfo> = Vec::new();
        let mut i: usize = 0;
        while i < self.session.len()
            invariant
                i <= self.session.items().len(),
                r@.len() == i,
            decreases self.session.items().len() - i,
        {
            r.push(self.session.value_at(i).clone());
            i = i + 1;
        }
        r
    }

    /// Free margin: on-chain total minus all reservations.
    pub fn free_margin(&self) -> (r: i128)
        requires
            self.wf(),
        ensures
            r == self@.total - self@.reserved,
    {
        self.margin_book.free()
    }
}

} // verus!
