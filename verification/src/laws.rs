//! Laws of the store: what a feed built by a run of `insert` calls answers
//! to `fetch` and `latest`, stated over [`FeedModel`] and proved from the
//! model alone, so they carry over to the executable operations through
//! their exact contracts.

use vstd::prelude::*;
use vstd::arithmetic::div_mod::lemma_div_basics;
use vstd::arithmetic::div_mod::lemma_div_by_multiple;
use vstd::arithmetic::div_mod::lemma_div_is_ordered;
use vstd::arithmetic::div_mod::lemma_fundamental_div_mod;
use vstd::arithmetic::div_mod::lemma_fundamental_div_mod_converse;
use vstd::arithmetic::div_mod::lemma_mod_bound;
use vstd::arithmetic::div_mod::lemma_mod_is_zero;
use vstd::arithmetic::div_mod::lemma_mod_multiples_basic;
use vstd::arithmetic::div_mod::lemma_mod_multiples_vanish;
use vstd::arithmetic::div_mod::lemma_mod_twice;
use vstd::arithmetic::div_mod::lemma_small_mod;
use vstd::arithmetic::div_mod::lemma_sub_mod_noop;
use vstd::arithmetic::mul::lemma_mul_inequality;

use crate::store::FeedModel;
use crate::store::Transmission;

verus! {

/// A feed that has never held a round: both cursors at 0, id counter at 0.
pub open spec fn fresh_feed(m: FeedModel) -> bool {
    &&& m.wf()
    &&& m.latest_round_id == 0
    &&& m.live_cursor == 0
    &&& m.historical_cursor == 0
}

/// The state after inserting `rounds`, in order, into `m0`.
pub open spec fn feed_after(m0: FeedModel, rounds: Seq<Transmission>) -> FeedModel
    decreases rounds.len(),
{
    if rounds.len() == 0 {
        m0
    } else {
        feed_after(m0, rounds.drop_last()).insert(rounds.last())
    }
}

/// Advancing a wrapped cursor by one wraps the same way as wrapping the
/// advanced count: the cursor of a ring can be tracked either way.
proof fn lemma_mod_then_increment(a: int, m: int)
    requires
        0 <= a,
        0 < m,
    ensures
        (a % m + 1) % m == (a + 1) % m,
{
    lemma_fundamental_div_mod(a, m);
    lemma_mod_multiples_vanish(a / m, a % m + 1, m);
}

/// Two round ids at distance 1 to `cap - 1` never share a ring slot.
proof fn lemma_slots_distinct(a: int, b: int, cap: int)
    requires
        0 <= b <= a,
        1 <= a - b < cap,
    ensures
        a % cap != b % cap,
{
    lemma_mod_bound(a, cap);
    lemma_mod_bound(b, cap);
    if a % cap == b % cap {
        lemma_sub_mod_noop(a, b, cap);
        lemma_small_mod(0nat, cap as nat);
        assert((a - b) % cap == (a % cap - b % cap) % cap);
        lemma_mod_twice(a, cap);
        lemma_mod_is_zero((a - b) as nat, cap as nat);
    }
}

/// The complete state after a run of inserts into a fresh feed: the counter
/// reads the number of inserts, each cursor has advanced once per write to
/// its ring, the live ring holds the last `live.len()` rounds at the slots
/// their 1-based ids select, and the historical ring holds the last
/// `historical.len()` granularity-aligned rounds likewise.
pub proof fn lemma_feed_after_state(m0: FeedModel, rounds: Seq<Transmission>)
    requires
        fresh_feed(m0),
        rounds.len() <= u32::MAX,
    ensures
        ({
            let m = feed_after(m0, rounds);
            let n = rounds.len() as int;
            let l = m0.live.len() as int;
            let h = m0.historical.len() as int;
            let g = m0.granularity as int;
            &&& m.wf()
            &&& m.latest_round_id == n
            &&& m.granularity == m0.granularity
            &&& m.live.len() == l
            &&& m.historical.len() == h
            &&& m.live_cursor == n % l
            &&& m.historical_cursor == (n / g) % h
            &&& (forall|i: int|
                1 <= i && n - l + 1 <= i && i <= n ==> #[trigger] m.live[(i - 1) % l] == rounds[i
                    - 1])
            &&& (forall|k: int|
                1 <= k && n / g - h + 1 <= k && k <= n / g ==> #[trigger] m.historical[(k - 1) % h]
                    == rounds[k * g - 1])
        }),
    decreases rounds.len(),
{
    let n = rounds.len() as int;
    let l = m0.live.len() as int;
    let h = m0.historical.len() as int;
    let g = m0.granularity as int;
    if rounds.len() == 0 {
        lemma_small_mod(0nat, l as nat);
        lemma_small_mod(0nat, h as nat);
        lemma_div_basics(g);
    } else {
        let rd = rounds.drop_last();
        let t = rounds.last();
        lemma_feed_after_state(m0, rd);
        let m1 = feed_after(m0, rd);
        let m = m1.insert(t);
        let n1 = n - 1;
        let k1 = n1 / g;
        assert(m == feed_after(m0, rounds));

        // The live cursor and ring.
        lemma_mod_then_increment(n1, l);
        assert(m.live_cursor == n % l);
        lemma_mod_bound(n1, l);
        assert forall|i: int| 1 <= i && n - l + 1 <= i && i <= n implies #[trigger] m.live[(i
            - 1) % l] == rounds[i - 1] by {
            lemma_mod_bound(i - 1, l);
            if i == n {
                assert((i - 1) % l == n1 % l);
            } else {
                lemma_slots_distinct(n1, i - 1, l);
                assert(m.live[(i - 1) % l] == m1.live[(i - 1) % l]);
                assert(m1.live[(i - 1) % l] == rd[i - 1]);
            }
        }

        // The historical cursor and ring.
        lemma_fundamental_div_mod(n1, g);
        lemma_mod_bound(n1, g);
        if n % g == 0 {
            // The new round's id n is aligned: it was written at the old
            // historical cursor, and n / g == n1 / g + 1.
            lemma_fundamental_div_mod(n, g);
            assert(n == g * (n / g)) by {
                lemma_fundamental_div_mod(n, g);
            }
            assert(n1 == (n / g - 1) * g + (g - 1)) by (nonlinear_arith)
                requires
                    n1 == n - 1,
                    g >= 1,
                    n == g * (n / g),
            ;
            lemma_fundamental_div_mod_converse(n1, g, n / g - 1, g - 1);
            assert(k1 == n / g - 1);
            lemma_mod_then_increment(k1, h);
            assert(m.historical_cursor == (n / g) % h);
            lemma_mod_bound(k1, h);
            assert forall|k: int| 1 <= k && n / g - h + 1 <= k && k <= n / g implies #[trigger] m.historical[(
                k - 1) % h] == rounds[k * g - 1] by {
                lemma_mod_bound(k - 1, h);
                assert(1 * g <= k * g) by {
                    lemma_mul_inequality(1, k, g);
                }
                if k == n / g {
                    assert((k - 1) % h == k1 % h);
                    assert(n == g * (n / g)) by {
                        lemma_fundamental_div_mod(n, g);
                    }
                    assert(k * g == n) by (nonlinear_arith)
                        requires
                            k == n / g,
                            n == g * (n / g),
                    ;
                    assert(m.historical == m1.historical.update(
                        m1.historical_cursor as int,
                        t,
                    ));
                    assert(m.historical[(k - 1) % h] == t);
                    assert(rounds[k * g - 1] == t);
                } else {
                    lemma_slots_distinct(k1, k - 1, h);
                    assert(m.historical[(k - 1) % h] == m1.historical[(k - 1) % h]);
                    assert(k * g <= k1 * g) by {
                        lemma_mul_inequality(k, k1, g);
                    }
                    assert(k1 * g == g * k1) by (nonlinear_arith);
                    assert(k1 * g <= n1) by {
                        lemma_fundamental_div_mod(n1, g);
                        lemma_mod_bound(n1, g);
                    }
                    assert(m1.historical[(k - 1) % h] == rd[k * g - 1]);
                    assert(rounds[k * g - 1] == rd[k * g - 1]);
                }
            }
        } else {
            // The new round's id is off-grid: the historical ring is
            // untouched and n / g == n1 / g.
            assert(n / g == k1 && n % g == n1 % g + 1) by {
                if n1 % g + 1 == g {
                    assert(n == (k1 + 1) * g + 0) by {
                        vstd::arithmetic::mul::lemma_mul_is_distributive_add_other_way(g, k1, 1);
                    }
                    lemma_fundamental_div_mod_converse(n, g, k1 + 1, 0);
                    lemma_mod_multiples_basic(k1 + 1, g);
                } else {
                    lemma_fundamental_div_mod_converse(n, g, k1, n1 % g + 1);
                }
            }
            assert(m.historical_cursor == (n / g) % h);
            assert forall|k: int| 1 <= k && n / g - h + 1 <= k && k <= n / g implies #[trigger] m.historical[(
                k - 1) % h] == rounds[k * g - 1] by {
                lemma_mod_bound(k - 1, h);
                assert(1 * g <= k * g) by {
                    lemma_mul_inequality(1, k, g);
                }
                assert(k * g <= k1 * g) by {
                    lemma_mul_inequality(k, k1, g);
                }
                assert(k1 * g == g * k1) by (nonlinear_arith);
                assert(k1 * g <= n1) by {
                    lemma_fundamental_div_mod(n1, g);
                    lemma_mod_bound(n1, g);
                }
                assert(m.historical == m1.historical);
                assert(m1.historical[(k - 1) % h] == rd[k * g - 1]);
                assert(rounds[k * g - 1] == rd[k * g - 1]);
            }
        }
        lemma_mod_bound(n, l);
        lemma_mod_bound(n / g, h);
    }
}

/// After `N` inserts the round counter reads exactly `N`, and the feed's
/// geometry is unchanged.
pub proof fn lemma_insert_monotonic(m0: FeedModel, rounds: Seq<Transmission>)
    requires
        fresh_feed(m0),
        rounds.len() <= u32::MAX,
    ensures
        feed_after(m0, rounds).latest_round_id == rounds.len(),
        feed_after(m0, rounds).wf(),
        feed_after(m0, rounds).granularity == m0.granularity,
        feed_after(m0, rounds).live.len() == m0.live.len(),
        feed_after(m0, rounds).historical.len() == m0.historical.len(),
    decreases rounds.len(),
{
    if rounds.len() > 0 {
        lemma_insert_monotonic(m0, rounds.drop_last());
    }
}

/// Shifting the base of a subtraction by a full number of wraps does not
/// change the slot it lands on.
proof fn lemma_mod_shift_base(a: int, c: int, m: int)
    requires
        0 < m,
    ensures
        (a % m - c) % m == (a - c) % m,
{
    lemma_sub_mod_noop(a, c, m);
    lemma_sub_mod_noop(a % m, c, m);
    lemma_mod_twice(a, m);
}

/// Live exactness: a round id inside the live window fetches exactly the
/// round that was inserted under that id.
pub proof fn lemma_live_exact(m0: FeedModel, rounds: Seq<Transmission>, rid: int)
    requires
        fresh_feed(m0),
        rounds.len() <= u32::MAX,
        1 <= rid <= rounds.len(),
        rounds.len() - m0.live.len() < rid,
    ensures
        feed_after(m0, rounds).fetch(rid) == Some(rounds[rid - 1]),
{
    lemma_feed_after_state(m0, rounds);
    let m = feed_after(m0, rounds);
    let n = rounds.len() as int;
    let l = m0.live.len() as int;
    assert(m.live_lo() <= rid);
    lemma_mod_shift_base(n, n - rid + 1, l);
    assert(m.live_slot(rid) == (rid - 1) % l);
    assert(m.live[(rid - 1) % l] == rounds[rid - 1]);
}

/// The newest round: after at least one insert, `latest` answers the round
/// inserted last.
pub proof fn lemma_latest_newest(m0: FeedModel, rounds: Seq<Transmission>)
    requires
        fresh_feed(m0),
        1 <= rounds.len() <= u32::MAX,
    ensures
        feed_after(m0, rounds).latest() == Some(rounds[rounds.len() - 1]),
{
    lemma_feed_after_state(m0, rounds);
    let m = feed_after(m0, rounds);
    let n = rounds.len() as int;
    let l = m0.live.len() as int;
    lemma_mod_shift_base(n, 1, l);
    assert(m.live[(n - 1) % l] == rounds[n - 1]);
}

/// Historical rounding: a round id below the live window but inside the
/// historical window, and no smaller than the granularity, fetches the
/// round whose id is the largest granularity multiple at or below it.
pub proof fn lemma_historical_rounding(m0: FeedModel, rounds: Seq<Transmission>, rid: int)
    requires
        fresh_feed(m0),
        rounds.len() <= u32::MAX,
        1 <= rid <= rounds.len(),
        rid < feed_after(m0, rounds).live_lo(),
        m0.granularity <= rid,
        feed_after(m0, rounds).historical_lo() <= rid <= feed_after(m0, rounds).historical_end(),
    ensures
        feed_after(m0, rounds).fetch(rid) == Some(
            rounds[rid - rid % (m0.granularity as int) - 1],
        ),
{
    lemma_feed_after_state(m0, rounds);
    let m = feed_after(m0, rounds);
    let n = rounds.len() as int;
    let h = m0.historical.len() as int;
    let g = m0.granularity as int;
    let big_k = n / g;
    let k = rid / g;
    let rounded = rid - rid % g;

    lemma_fundamental_div_mod(rid, g);
    lemma_fundamental_div_mod(n, g);
    lemma_mod_bound(rid, g);
    lemma_mod_bound(n, g);
    assert(rounded == g * k);
    assert(m.historical_end() == g * big_k);

    // The requested id's multiple index lies in [1, n / g].
    assert(1 <= k) by {
        lemma_div_is_ordered(g, rid, g);
        lemma_div_basics(g);
    }
    assert(k <= big_k) by {
        lemma_div_is_ordered(rid, n, g);
    }

    // The walk lands on the slot the multiple's 1-based index selects.
    assert((m.historical_end() - rounded) / g == big_k - k) by {
        vstd::arithmetic::mul::lemma_mul_is_distributive_sub(g, big_k, k);
        lemma_div_by_multiple(big_k - k, g);
    }
    lemma_mod_shift_base(big_k, big_k - k + 1, h);
    assert(m.historical_slot(rounded) == (k - 1) % h);

    // The multiple's index is inside the historical ring's retention.
    assert(big_k - h + 1 <= k) by {
        if big_k - h + 1 >= 1 {
            assert(g * (big_k - h + 1) > 0) by {
                lemma_mul_inequality(1, big_k - h + 1, g);
            }
            assert(m.historical_lo() == g * (big_k - h + 1)) by {
                vstd::arithmetic::mul::lemma_mul_is_distributive_sub(g, big_k, h - 1);
            }
            lemma_div_is_ordered(g * (big_k - h + 1), rid, g);
            lemma_div_by_multiple(big_k - h + 1, g);
        }
    }
    assert(m.historical[(k - 1) % h] == rounds[k * g - 1]);
    assert(k * g - 1 == rounded - 1);
}

/// Eviction: a round id of 0, an id newer than the last insert, or an id
/// outside both retention windows fetches nothing.
pub proof fn lemma_fetch_absent(m: FeedModel, rid: int)
    requires
        m.wf(),
        rid <= 0 || rid > m.latest_round_id || (rid < m.live_lo() && !(m.historical_lo() <= rid
            <= m.historical_end())),
    ensures
        m.fetch(rid) is None,
{
}

/// Idempotent reads: `fetch` leaves the store untouched (it takes the feed
/// by shared reference) and its answer is a function of the state alone, so
/// two calls with the same argument on the same state agree.
pub proof fn lemma_fetch_idempotent(
    m: FeedModel,
    rid: int,
    r1: Option<Transmission>,
    r2: Option<Transmission>,
)
    requires
        r1 == m.fetch(rid),
        r2 == m.fetch(rid),
    ensures
        r1 == r2,
{
}

} // verus!
