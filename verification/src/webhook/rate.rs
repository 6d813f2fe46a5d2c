//! The per-token limit on received posts: a fixed window per token.
//!
//! The first post of a token opens a window of one minute; within it at most
//! thirty posts pass. A window that has ended is dropped at the next check,
//! so the next post opens a new one. Time is a count of milliseconds from any
//! fixed origin, handed in by the caller.
use vstd::prelude::*;

verus! {

/// Posts that pass per token and window.
pub const RATE_LIMIT_PER_MINUTE: u32 = 30;

/// The length of a window, in milliseconds.
pub const RATE_WINDOW_MS: u64 = 60_000;

/// The window of one token: how many posts it has seen and when it ends.
#[derive(Debug)]
pub struct RateBucket {
    pub token: String,
    pub count: u32,
    pub reset_ms: u64,
}

/// The open windows, one per token.
#[derive(Debug)]
pub struct RateLimiter {
    buckets: Vec<RateBucket>,
}

/// The windows held in `s`, by token: `(count, reset_ms)`.
pub open spec fn buckets_map(s: Seq<RateBucket>) -> Map<Seq<char>, (u32, u64)>
    decreases s.len(),
{
    if s.len() == 0 {
        Map::empty()
    } else {
        buckets_map(s.drop_last()).insert(s.last().token@, (s.last().count, s.last().reset_ms))
    }
}

/// No token has two windows in `s`.
pub open spec fn distinct_tokens(s: Seq<RateBucket>) -> bool {
    forall|i: int, j: int| 0 <= i < j < s.len() ==> s[i].token@ != s[j].token@
}

/// The windows of `m` that are still open at `now`.
pub open spec fn live(m: Map<Seq<char>, (u32, u64)>, now: u64) -> Map<Seq<char>, (u32, u64)> {
    Map::new(|k: Seq<char>| m.contains_key(k) && m[k].1 > now, |k: Seq<char>| m[k])
}

/// One more post on a window's count (held at the top of the range).
pub open spec fn bump(c: u32) -> u32 {
    if c < u32::MAX {
        (c + 1) as u32
    } else {
        c
    }
}

/// The windows after a post of `token` at `now`, and whether it passes.
pub open spec fn after_check(m: Map<Seq<char>, (u32, u64)>, token: Seq<char>, now: u64) -> (
    Map<Seq<char>, (u32, u64)>,
    bool,
) {
    let l = live(m, now);
    if l.contains_key(token) {
        let c = bump(l[token].0);
        (l.insert(token, (c, l[token].1)), c <= RATE_LIMIT_PER_MINUTE)
    } else {
        (l.insert(token, (1u32, (now + RATE_WINDOW_MS) as u64)), true)
    }
}

impl View for RateLimiter {
    type V = Map<Seq<char>, (u32, u64)>;

    closed spec fn view(&self) -> Map<Seq<char>, (u32, u64)> {
        buckets_map(self.buckets@)
    }
}

impl RateLimiter {
    #[verifier::type_invariant]
    spec fn inv(self) -> bool {
        distinct_tokens(self.buckets@)
    }

    /// No window open.
    pub fn new() -> (r: RateLimiter)
        ensures
            r@ == Map::<Seq<char>, (u32, u64)>::empty(),
    {
        RateLimiter { buckets: Vec::new() }
    }

    /// Counts a post of `token` at `now_ms` and says whether it passes.
    /// Windows that have ended are dropped.
    pub fn check_rate_limit(&mut self, token: &str, now_ms: u64) -> (ok: bool)
        requires
            now_ms <= u64::MAX - RATE_WINDOW_MS,
        ensures
            final(self)@ == after_check(old(self)@, token@, now_ms).0,
            ok == after_check(old(self)@, token@, now_ms).1,
    {
        proof {
            use_type_invariant(&*self);
        }
        let (kept, ok) = sweep_and_count(&self.buckets, token, now_ms);
        self.buckets = kept;
        ok
    }
}

proof fn lemma_buckets_dom(s: Seq<RateBucket>)
    ensures
        forall|k: Seq<char>|
            #![trigger buckets_map(s).contains_key(k)]
            buckets_map(s).contains_key(k) <==> exists|j: int|
                0 <= j < s.len() && s[j].token@ == k,
    decreases s.len(),
{
    if s.len() > 0 {
        lemma_buckets_dom(s.drop_last());
        assert forall|k: Seq<char>|
            buckets_map(s).contains_key(k) implies exists|j: int|
                0 <= j < s.len() && s[j].token@ == k by {
            if k != s.last().token@ {
                assert(buckets_map(s.drop_last()).contains_key(k));
                let j = choose|j: int| 0 <= j < s.drop_last().len() && s.drop_last()[j].token@ == k;
                assert(s[j] == s.drop_last()[j]);
            } else {
                assert(s[s.len() - 1].token@ == k);
            }
        }
        assert forall|k: Seq<char>|
            (exists|j: int| 0 <= j < s.len() && s[j].token@ == k) implies buckets_map(
                s,
            ).contains_key(k) by {
            let j = choose|j: int| 0 <= j < s.len() && s[j].token@ == k;
            if j < s.len() - 1 {
                assert(s.drop_last()[j] == s[j]);
                assert(buckets_map(s.drop_last()).contains_key(k));
            }
        }
    }
}

/// The open windows of `old` at `now`, with `token`'s post counted, and
/// whether the post passes.
fn sweep_and_count(old: &Vec<RateBucket>, token: &str, now: u64) -> (r: (Vec<RateBucket>, bool))
    requires
        distinct_tokens(old@),
        now <= u64::MAX - RATE_WINDOW_MS,
    ensures
        distinct_tokens(r.0@),
        buckets_map(r.0@) == after_check(buckets_map(old@), token@, now).0,
        r.1 == after_check(buckets_map(old@), token@, now).1,
{
    let mut kept: Vec<RateBucket> = Vec::new();
    let mut found = false;
    let mut ok = true;
    let mut i: usize = 0;
    while i < old.len()
        invariant
            i <= old@.len(),
            distinct_tokens(old@),
            distinct_tokens(kept@),
            now <= u64::MAX - RATE_WINDOW_MS,
            ({
                let f = live(buckets_map(old@.take(i as int)), now);
                &&& found ==> f.contains_key(token@) && buckets_map(kept@) == f.insert(
                    token@,
                    (bump(f[token@].0), f[token@].1),
                ) && ok == (bump(f[token@].0) <= RATE_LIMIT_PER_MINUTE)
                &&& !found ==> !f.contains_key(token@) && buckets_map(kept@) == f && ok
                &&& buckets_map(kept@).dom() == f.dom()
            }),
        decreases old@.len() - i,
    {
        let ghost pre = old@.take(i as int);
        let ghost f = live(buckets_map(pre), now);
        let b = &old[i];
        proof {
            assert(old@.take(i + 1).drop_last() =~= pre);
            assert(old@.take(i + 1).last() == old@[i as int]);
            lemma_buckets_dom(pre);
            lemma_buckets_dom(kept@);
            assert(!buckets_map(pre).contains_key(b.token@)) by {
                if buckets_map(pre).contains_key(b.token@) {
                    let j = choose|j: int| 0 <= j < pre.len() && pre[j].token@ == b.token@;
                    assert(old@[j].token@ == old@[i as int].token@);
                }
            }
        }
        let ghost v = (b.count, b.reset_ms);
        let ghost f2 = live(buckets_map(old@.take(i + 1)), now);
        let ghost k0 = kept@;
        if b.reset_ms > now {
            assert(f2 =~= f.insert(b.token@, v));
            let same = crate::text::str_eq(b.token.as_str(), token);
            if same {
                let c = if b.count < u32::MAX {
                    b.count + 1
                } else {
                    b.count
                };
                ok = c <= RATE_LIMIT_PER_MINUTE;
                found = true;
                kept.push(RateBucket { token: b.token.clone(), count: c, reset_ms: b.reset_ms });
                proof {
                    assert(kept@.drop_last() =~= k0);
                    assert(buckets_map(k0) == f);
                    assert(buckets_map(kept@) =~= f2.insert(token@, (bump(f2[token@].0), f2[token@].1)));
                }
            } else {
                kept.push(RateBucket { token: b.token.clone(), count: b.count, reset_ms: b.reset_ms });
                proof {
                    assert(kept@.drop_last() =~= k0);
                    assert(buckets_map(kept@) == buckets_map(k0).insert(b.token@, v));
                    if found {
                        assert(buckets_map(kept@) =~= f2.insert(
                            token@,
                            (bump(f2[token@].0), f2[token@].1),
                        ));
                    } else {
                        assert(buckets_map(kept@) =~= f2);
                    }
                }
            }
            proof {
                assert(kept@.drop_last() =~= k0);
                assert forall|x: int, y: int| 0 <= x < y < kept@.len() implies kept@[x].token@
                    != kept@[y].token@ by {
                    assert(k0.len() + 1 == kept@.len());
                    if y == kept@.len() - 1 {
                        assert(k0[x] == kept@[x]);
                        assert(kept@[y].token@ == b.token@);
                        assert(buckets_map(k0).contains_key(k0[x].token@));
                    } else {
                        assert(k0[x] == kept@[x]);
                        assert(k0[y] == kept@[y]);
                    }
                }
            }
        } else {
            assert(f2 =~= f);
        }
        i += 1;
    }
    proof {
        assert(old@.take(old@.len() as int) =~= old@);
    }
    if !found {
        let ghost f = live(buckets_map(old@), now);
        let ghost k0 = kept@;
        proof {
            lemma_buckets_dom(k0);
        }
        kept.push(RateBucket { token: crate::text::copy_str(token), count: 1, reset_ms: now + RATE_WINDOW_MS });
        proof {
            assert(kept@.drop_last() =~= k0);
            assert(buckets_map(kept@) =~= f.insert(token@, (1u32, (now + RATE_WINDOW_MS) as u64)));
            assert forall|x: int, y: int| 0 <= x < y < kept@.len() implies kept@[x].token@
                != kept@[y].token@ by {
                assert(k0[x] == kept@[x]);
                if y < kept@.len() - 1 {
                    assert(k0[y] == kept@[y]);
                } else {
                    assert(buckets_map(k0).contains_key(k0[x].token@));
                }
            }
        }
    }
    (kept, ok)
}

/// The posts of one token at `times`, one after another: the windows after
/// them and how many passed.
pub open spec fn run_checks(m: Map<Seq<char>, (u32, u64)>, token: Seq<char>, times: Seq<u64>) -> (
    Map<Seq<char>, (u32, u64)>,
    nat,
)
    decreases times.len(),
{
    if times.len() == 0 {
        (m, 0)
    } else {
        let (m1, ok) = after_check(m, token, times[0]);
        let (m2, n) = run_checks(m1, token, times.drop_first());
        (m2, n + if ok {
            1nat
        } else {
            0nat
        })
    }
}

proof fn lemma_open_window_bound(
    m: Map<Seq<char>, (u32, u64)>,
    token: Seq<char>,
    times: Seq<u64>,
)
    requires
        m.contains_key(token),
        forall|i: int| 0 <= i < times.len() ==> times[i] < m[token].1,
    ensures
        run_checks(m, token, times).1 + (if m[token].0 < RATE_LIMIT_PER_MINUTE {
            m[token].0 as int
        } else {
            RATE_LIMIT_PER_MINUTE as int
        }) <= RATE_LIMIT_PER_MINUTE,
    decreases times.len(),
{
    if times.len() > 0 {
        let (m1, ok) = after_check(m, token, times[0]);
        assert(live(m, times[0]).contains_key(token));
        assert(m1.contains_key(token) && m1[token].1 == m[token].1);
        assert forall|i: int| 0 <= i < times.drop_first().len() implies times.drop_first()[i]
            < m1[token].1 by {
            assert(times.drop_first()[i] == times[i + 1]);
        }
        lemma_open_window_bound(m1, token, times.drop_first());
    }
}

/// Within one window at most thirty posts of a token pass: when no window of
/// `token` is open at the first post, of posts at times from the first up to
/// one minute after it, no more than thirty pass.
pub proof fn lemma_at_most_limit_per_window(
    m: Map<Seq<char>, (u32, u64)>,
    token: Seq<char>,
    times: Seq<u64>,
)
    requires
        times.len() > 0,
        times[0] <= u64::MAX - RATE_WINDOW_MS,
        !live(m, times[0]).contains_key(token),
        forall|i: int| 0 <= i < times.len() ==> times[0] <= #[trigger] times[i] < times[0] + RATE_WINDOW_MS,
    ensures
        run_checks(m, token, times).1 <= RATE_LIMIT_PER_MINUTE,
{
    let (m1, ok) = after_check(m, token, times[0]);
    assert(m1.contains_key(token) && m1[token] == (1u32, (times[0] + RATE_WINDOW_MS) as u64));
    assert forall|i: int| 0 <= i < times.drop_first().len() implies times.drop_first()[i]
        < m1[token].1 by {
        assert(times.drop_first()[i] == times[i + 1]);
    }
    lemma_open_window_bound(m1, token, times.drop_first());
}

/// A post passes whenever its token has no open window, and then opens one
/// of a single post ending a minute later.
pub proof fn lemma_fresh_window_passes(m: Map<Seq<char>, (u32, u64)>, token: Seq<char>, now: u64)
    requires
        now <= u64::MAX - RATE_WINDOW_MS,
        !(m.contains_key(token) && m[token].1 > now),
    ensures
        after_check(m, token, now).1,
        after_check(m, token, now).0[token] == (1u32, (now + RATE_WINDOW_MS) as u64),
{
}

/// A post of one token leaves the open windows of every other token as they
/// were.
pub proof fn lemma_other_tokens_untouched(
    m: Map<Seq<char>, (u32, u64)>,
    token: Seq<char>,
    other: Seq<char>,
    now: u64,
)
    requires
        other != token,
    ensures
        after_check(m, token, now).0.contains_key(other) == (m.contains_key(other) && m[other].1
            > now),
        after_check(m, token, now).0.contains_key(other) ==> after_check(m, token, now).0[other]
            == m[other],
{
}

} // verus!
