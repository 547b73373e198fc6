use vstd::prelude::*;

verus! {

/// Length of one candle; the wire form is the exchange's short interval name.
#[derive(Debug, Clone, Copy, PartialEq, Eq, Structural, Hash)]
pub enum TimeFrame {
    Min1,
    Min3,
    Min5,
    Min15,
    Min30,
    Hour1,
    Hour2,
    Hour4,
    Hour12,
    Day1,
    Day3,
    Week,
    Month,
}

impl TimeFrame {
    /// Duration in seconds (a month counts as thirty days).
    pub open spec fn secs(self) -> nat {
        match self {
            TimeFrame::Min1 => 60,
            TimeFrame::Min3 => 180,
            TimeFrame::Min5 => 300,
            TimeFrame::Min15 => 900,
            TimeFrame::Min30 => 1800,
            TimeFrame::Hour1 => 3600,
            TimeFrame::Hour2 => 7200,
            TimeFrame::Hour4 => 14400,
            TimeFrame::Hour12 => 43200,
            TimeFrame::Day1 => 86400,
            TimeFrame::Day3 => 259200,
            TimeFrame::Week => 604800,
            TimeFrame::Month => 2592000,
        }
    }

    pub open spec fn millis(self) -> nat {
        self.secs() * 1000
    }

    /// The short name used on the wire.
    pub open spec fn wire(self) -> Seq<char> {
        match self {
            TimeFrame::Min1 => seq!['1', 'm'],
            TimeFrame::Min3 => seq!['3', 'm'],
            TimeFrame::Min5 => seq!['5', 'm'],
            TimeFrame::Min15 => seq!['1', '5', 'm'],
            TimeFrame::Min30 => seq!['3', '0', 'm'],
            TimeFrame::Hour1 => seq!['1', 'h'],
            TimeFrame::Hour2 => seq!['2', 'h'],
            TimeFrame::Hour4 => seq!['4', 'h'],
            TimeFrame::Hour12 => seq!['1', '2', 'h'],
            TimeFrame::Day1 => seq!['1', 'd'],
            TimeFrame::Day3 => seq!['3', 'd'],
            TimeFrame::Week => seq!['1', 'w'],
            TimeFrame::Month => seq!['1', 'M'],
        }
    }

    pub fn to_secs(&self) -> (r: u64)
        ensures
            r == self.secs(),
    {
        match *self {
            TimeFrame::Min1 => 60,
            TimeFrame::Min3 => 3 * 60,
            TimeFrame::Min5 => 5 * 60,
            TimeFrame::Min15 => 15 * 60,
            TimeFrame::Min30 => 30 * 60,
            TimeFrame::Hour1 => 60 * 60,
            TimeFrame::Hour2 => 2 * 60 * 60,
            TimeFrame::Hour4 => 4 * 60 * 60,
            TimeFrame::Hour12 => 12 * 60 * 60,
            TimeFrame::Day1 => 24 * 60 * 60,
            TimeFrame::Day3 => 3 * 24 * 60 * 60,
            TimeFrame::Week => 7 * 24 * 60 * 60,
            TimeFrame::Month => 30 * 24 * 60 * 60,
        }
    }

    pub fn to_millis(&self) -> (r: u64)
        ensures
            r == self.millis(),
            r > 0,
    {
        self.to_secs() * 1000
    }

    pub fn as_str(&self) -> (r: &'static str)
        ensures
            r@ == self.wire(),
    {
        match self {
            TimeFrame::Min1 => {
                proof { reveal_strlit("1m"); }
                "1m"
            },
            TimeFrame::Min3 => {
                proof { reveal_strlit("3m"); }
                "3m"
            },
            TimeFrame::Min5 => {
                proof { reveal_strlit("5m"); }
                "5m"
            },
            TimeFrame::Min15 => {
                proof { reveal_strlit("15m"); }
                "15m"
            },
            TimeFrame::Min30 => {
                proof { reveal_strlit("30m"); }
                "30m"
            },
            TimeFrame::Hour1 => {
                proof { reveal_strlit("1h"); }
                "1h"
            },
            TimeFrame::Hour2 => {
                proof { reveal_strlit("2h"); }
                "2h"
            },
            TimeFrame::Hour4 => {
                proof { reveal_strlit("4h"); }
                "4h"
            },
            TimeFrame::Hour12 => {
                proof { reveal_strlit("12h"); }
                "12h"
            },
            TimeFrame::Day1 => {
                proof { reveal_strlit("1d"); }
                "1d"
            },
            TimeFrame::Day3 => {
                proof { reveal_strlit("3d"); }
                "3d"
            },
            TimeFrame::Week => {
                proof { reveal_strlit("1w"); }
                "1w"
            },
            TimeFrame::Month => {
                proof { reveal_strlit("1M"); }
                "1M"
            },
        }
    }

    pub fn to_string(&self) -> (r: String)
        ensures
            r@ == self.wire(),
    {
        self.as_str().to_owned()
    }

    /// Reads the wire form back; `None` when `s` names no timeframe.
    pub fn from_wire(s: &str) -> (r: Option<TimeFrame>)
        ensures
            r matches Some(tf) ==> tf.wire() == s@,
            r is None ==> forall|tf: TimeFrame| tf.wire() != s@,
    {
        let all = TimeFrame::all();
        let mut i: usize = 0;
        while i < all.len()
            invariant
                i <= all.len(),
                forall|tf: TimeFrame| #[trigger] all@.contains(tf),
                forall|j: int| 0 <= j < i ==> all@[j].wire() != s@,
            decreases all.len() - i,
        {
            let name = all[i].as_str();
            if str_equal(name, s) {
                return Some(all[i]);
            }
            i = i + 1;
        }
        proof {
            assert forall|tf: TimeFrame| tf.wire() != s@ by {
                assert(all@.contains(tf));
            }
        }
        None
    }

    /// Every timeframe, shortest first.
    pub fn all() -> (r: Vec<TimeFrame>)
        ensures
            forall|tf: TimeFrame| #[trigger] r@.contains(tf),
    {
        let r = vec![
            TimeFrame::Min1,
            TimeFrame::Min3,
            TimeFrame::Min5,
            TimeFrame::Min15,
            TimeFrame::Min30,
            TimeFrame::Hour1,
            TimeFrame::Hour2,
            TimeFrame::Hour4,
            TimeFrame::Hour12,
            TimeFrame::Day1,
            TimeFrame::Day3,
            TimeFrame::Week,
            TimeFrame::Month,
        ];
        proof {
            assert forall|tf: TimeFrame| #[trigger] r@.contains(tf) by {
                let k: int = match tf {
                    TimeFrame::Min1 => 0,
                    TimeFrame::Min3 => 1,
                    TimeFrame::Min5 => 2,
                    TimeFrame::Min15 => 3,
                    TimeFrame::Min30 => 4,
                    TimeFrame::Hour1 => 5,
                    TimeFrame::Hour2 => 6,
                    TimeFrame::Hour4 => 7,
                    TimeFrame::Hour12 => 8,
                    TimeFrame::Day1 => 9,
                    TimeFrame::Day3 => 10,
                    TimeFrame::Week => 11,
                    TimeFrame::Month => 12,
                };
                assert(r@[k] == tf);
            }
        }
        r
    }
}

/// Character-wise equality of two strings.
pub fn str_equal(a: &str, b: &str) -> (r: bool)
    ensures
        r == (a@ == b@),
{
    let n = a.unicode_len();
    if n != b.unicode_len() {
        return false;
    }
    let mut i: usize = 0;
    while i < n
        invariant
            n == a@.len(),
            n == b@.len(),
            i <= n,
            forall|j: int| 0 <= j < i ==> a@[j] == b@[j],
        decreases n - i,
    {
        if a.get_char(i) != b.get_char(i) {
            return false;
        }
        i = i + 1;
    }
    assert(a@ =~= b@);
    true
}

/// The window `(start, end)` in milliseconds that holds the last
/// `candle_count` candles of `tf` up to `now`; the start stops at zero.
/// `None` when the window's length does not fit in `u64`.
pub fn candle_window(now: u64, candle_count: u64, tf: TimeFrame) -> (r: Option<(u64, u64)>)
    ensures
        r matches Some(w) ==> w.1 == now && w.0 == if now >= candle_count * tf.millis() {
            now - candle_count * tf.millis()
        } else {
            0
        },
        r is None <==> candle_count * tf.millis() > u64::MAX,
{
    let ms = tf.to_millis();
    proof {
        vstd::arithmetic::mul::lemma_mul_is_associative(candle_count as int, tf.secs() as int, 1000);
    }
    let interval = match candle_count.checked_mul(ms) {
        Some(v) => v,
        None => return None,
    };
    let start = if now >= interval {
        now - interval
    } else {
        0
    };
    Some((start, now))
}

/// The first boundary of `tf` strictly after `now`: the smallest multiple of
/// the timeframe's length in milliseconds that is greater than `now`.
pub fn next_boundary(tf: TimeFrame, now: u64) -> (r: u64)
    requires
        now + tf.millis() <= u64::MAX,
    ensures
        r as int % tf.millis() as int == 0,
        r > now,
        r - tf.millis() <= now,
{
    let ms = tf.to_millis();
    let k = now / ms;
    proof {
        let (n, m, q) = (now as int, ms as int, k as int);
        vstd::arithmetic::div_mod::lemma_fundamental_div_mod(n, m);
        vstd::arithmetic::div_mod::lemma_mod_multiples_basic(q + 1, m);
        assert(q * m <= n && n < q * m + m) by (nonlinear_arith)
            requires
                n == m * (n / m) + n % m,
                0 <= n % m < m,
                q == n / m,
        ;
        assert((q + 1) * m == q * m + m) by (nonlinear_arith);
    }
    (k + 1) * ms
}

} // verus!
