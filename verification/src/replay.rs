//! Sliding-window anti-replay over one sender's increasing sequence numbers: a high-water mark
//! plus a 64-bit bitmap of recently seen lower sequence numbers.

use crate::strmap::StrMap;
use vstd::prelude::*;

verus! {

/// Width of the anti-replay window.
pub const REPLAY_WINDOW: u64 = 64;

/// Bit `d` of `b`.
pub open spec fn bit(b: u64, d: u64) -> bool {
    ((b >> d) & 1u64) == 1u64
}

/// The sequence numbers marked seen by a high-water mark and bitmap: `high - d` for each set
/// bit `d` (bit 0 is `high` itself).
pub open spec fn seen_set(high: u64, bitmap: u64) -> Set<u64> {
    Set::new(|x: u64| x <= high && high - x < 64 && bit(bitmap, (high - x) as u64))
}

/// The mathematical state of a replay window.
pub struct ReplayView {
    /// Whether any sequence number was accepted yet.
    pub started: bool,
    /// Highest accepted sequence number.
    pub high: u64,
    /// Accepted sequence numbers still inside the window `(high - 64, high]`.
    pub seen: Set<u64>,
}

/// The window after accepting `seq` into `v` (when `seq` is accepted).
pub open spec fn window_after(v: ReplayView, seq: u64) -> ReplayView {
    if !v.started {
        ReplayView { started: true, high: seq, seen: set![seq] }
    } else if seq > v.high {
        ReplayView {
            started: true,
            high: seq,
            seen: v.seen.insert(seq).filter(|x: u64| seq - x < 64),
        }
    } else {
        ReplayView { started: true, high: v.high, seen: v.seen.insert(seq) }
    }
}

/// Whether `seq` is fresh for `v`: the first ever, above the high-water mark, or inside the
/// window and not yet seen.
pub open spec fn fresh_seq(v: ReplayView, seq: u64) -> bool {
    !v.started || seq > v.high || (v.high - seq < 64 && !v.seen.contains(seq))
}

/// Anti-replay state for one sender.
#[derive(Debug, Clone, Copy)]
pub struct ReplayWindow {
    high: u64,
    bitmap: u64,
    seen_any: bool,
}

proof fn lemma_bit_shift(b: u64, s: u64, d: u64)
    by (bit_vector)
    requires
        0 < s < 64,
        d < 64,
    ensures
        bit((b << s) | 1u64, d) == (d == 0 || (d >= s && bit(b, (d - s) as u64))),
{
}

proof fn lemma_bit_one(d: u64)
    by (bit_vector)
    requires
        d < 64,
    ensures
        bit(1u64, d) == (d == 0),
{
}

proof fn lemma_bit_set(b: u64, s: u64, d: u64)
    by (bit_vector)
    requires
        s < 64,
        d < 64,
    ensures
        bit(b | (1u64 << s), d) == (bit(b, d) || d == s),
        ((b & (1u64 << s)) != 0u64) == bit(b, s),
{
}

impl ReplayWindow {
    pub closed spec fn view(&self) -> ReplayView {
        ReplayView {
            started: self.seen_any,
            high: self.high,
            seen: if self.seen_any { seen_set(self.high, self.bitmap) } else { Set::empty() },
        }
    }

    /// Bit 0 (the high-water mark itself) is set once anything was accepted.
    pub closed spec fn wf(&self) -> bool {
        self.seen_any ==> bit(self.bitmap, 0)
    }

    pub fn new() -> (w: Self)
        ensures
            w.wf(),
            w@ == empty_window(),
    {
        ReplayWindow { high: 0, bitmap: 0, seen_any: false }
    }

    /// Accept `seq` if it is fresh, updating the window. Returns `false` for a replay or a
    /// sequence number older than the 64-wide window.
    pub fn accept(&mut self, seq: u64) -> (ok: bool)
        requires
            old(self).wf(),
        ensures
            final(self).wf(),
            ok == fresh_seq(old(self)@, seq),
            final(self)@ == (if ok { window_after(old(self)@, seq) } else { old(self)@ }),
    {
        if !self.seen_any {
            self.seen_any = true;
            self.high = seq;
            self.bitmap = 1;
            proof {
                lemma_bit_one(0);
                assert forall|x: u64| seen_set(seq, 1u64).contains(x) <==> set![seq].contains(x) by {
                    if x <= seq && seq - x < 64 {
                        lemma_bit_one((seq - x) as u64);
                    }
                }
                assert(seen_set(seq, 1u64) =~= set![seq]);
            }
            return true;
        }
        let ghost old_seen = seen_set(self.high, self.bitmap);
        if seq > self.high {
            let shift = seq - self.high;
            let ghost b = self.bitmap;
            let ghost h = self.high;
            self.bitmap = if shift >= 64 {
                1
            } else {
                (self.bitmap << shift) | 1
            };
            self.high = seq;
            proof {
                let target = old_seen.insert(seq).filter(|x: u64| seq - x < 64);
                assert forall|x: u64| seen_set(seq, self.bitmap).contains(x) <==> target.contains(x) by {
                    if x <= seq && seq - x < 64 {
                        let d = (seq - x) as u64;
                        if shift >= 64 {
                            lemma_bit_one(d);
                        } else {
                            lemma_bit_shift(b, shift, d);
                            if d >= shift {
                                assert(h - x == d - shift);
                            }
                        }
                    }
                }
                assert(seen_set(seq, self.bitmap) =~= target);
                if shift >= 64 {
                    lemma_bit_one(0);
                } else {
                    lemma_bit_shift(b, shift, 0);
                }
            }
            true
        } else {
            let diff = self.high - seq;
            if diff == 0 || diff >= 64 {
                proof {
                    if diff == 0 {
                        assert(old_seen.contains(seq));
                    }
                }
                return false;
            }
            let mask = 1u64 << diff;
            proof {
                lemma_bit_set(self.bitmap, diff, 0);
            }
            if self.bitmap & mask != 0 {
                proof {
                    assert(old_seen.contains(seq));
                }
                false
            } else {
                let ghost b = self.bitmap;
                self.bitmap = self.bitmap | mask;
                proof {
                    assert(!old_seen.contains(seq));
                    assert forall|x: u64| seen_set(self.high, self.bitmap).contains(x) <==> old_seen.insert(seq).contains(x) by {
                        if x <= self.high && self.high - x < 64 {
                            lemma_bit_set(b, diff, (self.high - x) as u64);
                        }
                    }
                    assert(seen_set(self.high, self.bitmap) =~= old_seen.insert(seq));
                    lemma_bit_set(b, diff, 0);
                }
                true
            }
        }
    }
}

/// A sequence number is accepted at most once: right after `seq` was admitted, offering it
/// again is refused.
pub proof fn lemma_no_double_accept(v: ReplayView, seq: u64)
    ensures
        !fresh_seq(window_after(v, seq), seq),
{
    let w = window_after(v, seq);
    if !v.started {
        assert(w.seen.contains(seq));
    } else if seq > v.high {
        assert(w.seen.contains(seq));
    } else {
        assert(w.seen.contains(seq));
    }
}

/// Admitting a fresh number keeps every number held as seen inside `(high - 64, high]`, and the
/// high-water mark never decreases.
pub proof fn lemma_window_after_bounds(v: ReplayView, seq: u64)
    requires
        fresh_seq(v, seq),
        v.started ==> forall|x: u64| #[trigger] v.seen.contains(x) ==> x <= v.high && v.high - x < 64,
    ensures
        window_after(v, seq).started,
        v.started ==> window_after(v, seq).high >= v.high,
        forall|x: u64| #[trigger] window_after(v, seq).seen.contains(x) ==> x <= window_after(v, seq).high && window_after(v, seq).high - x < 64,
{
}


/// The window of a new `ReplayWindow`.
pub open spec fn empty_window() -> ReplayView {
    ReplayView { started: false, high: 0, seen: Set::empty() }
}

/// Freshness against the whole set of numbers accepted so far: `seq` was never accepted, and
/// the highest accepted number is less than 64 above it.
pub open spec fn fresh_against(accepted: Set<u64>, seq: u64) -> bool {
    !accepted.contains(seq) && forall|x: u64| #[trigger] accepted.contains(x) ==> x < seq + 64
}

/// The window after offering each of `offers` in turn to a new window.
pub open spec fn window_run(offers: Seq<u64>) -> ReplayView
    decreases offers.len(),
{
    if offers.len() == 0 {
        empty_window()
    } else {
        let v = window_run(offers.drop_last());
        if fresh_seq(v, offers.last()) { window_after(v, offers.last()) } else { v }
    }
}

/// The numbers accepted while offering each of `offers` in turn to a new window.
pub open spec fn accepted_run(offers: Seq<u64>) -> Set<u64>
    decreases offers.len(),
{
    if offers.len() == 0 {
        Set::empty()
    } else {
        let v = window_run(offers.drop_last());
        let a = accepted_run(offers.drop_last());
        if fresh_seq(v, offers.last()) { a.insert(offers.last()) } else { a }
    }
}

/// The window summarises the accepted set: started once anything was accepted, the high-water
/// mark is the highest accepted number, and the seen numbers are the accepted ones within 64
/// of it.
pub open spec fn summarises(v: ReplayView, accepted: Set<u64>) -> bool {
    &&& v.started == (exists|x: u64| #[trigger] accepted.contains(x))
    &&& v.started ==> accepted.contains(v.high)
    &&& forall|x: u64| #[trigger] accepted.contains(x) ==> x <= v.high
    &&& forall|x: u64| #[trigger] v.seen.contains(x) <==> (accepted.contains(x) && v.high - x < 64)
}

proof fn lemma_summary_step(v: ReplayView, accepted: Set<u64>, seq: u64)
    requires
        summarises(v, accepted),
    ensures
        fresh_seq(v, seq) == fresh_against(accepted, seq),
        fresh_seq(v, seq) ==> summarises(window_after(v, seq), accepted.insert(seq)),
{
    let after = accepted.insert(seq);
    assert(after.contains(seq));
    if !v.started {
        assert(accepted =~= Set::<u64>::empty());
        let w = window_after(v, seq);
        assert(w.seen =~= set![seq]);
        assert forall|x: u64| #[trigger] after.contains(x) implies x <= w.high by {
            assert(x == seq);
        }
        assert forall|x: u64| #[trigger] w.seen.contains(x) <==> (after.contains(x) && w.high - x < 64) by {
        }
        assert(summarises(w, after));
    } else {
        assert(accepted.contains(v.high));
        if seq > v.high {
            assert(fresh_against(accepted, seq));
            let w = window_after(v, seq);
            assert forall|x: u64| #[trigger] after.contains(x) implies x <= w.high by {
                if x != seq {
                    assert(accepted.contains(x));
                }
            }
            assert forall|x: u64| #[trigger] w.seen.contains(x) <==> (after.contains(x) && w.high - x < 64) by {
                if accepted.contains(x) && seq - x < 64 {
                    assert(v.seen.contains(x));
                }
            }
            assert(summarises(w, after));
        } else {
            if v.high - seq < 64 {
                assert(v.seen.contains(seq) == accepted.contains(seq));
            } else {
                assert(!(v.high < seq + 64));
            }
            if fresh_seq(v, seq) {
                let w = window_after(v, seq);
                assert forall|x: u64| #[trigger] after.contains(x) implies x <= w.high by {
                    if x != seq {
                        assert(accepted.contains(x));
                    }
                }
                assert forall|x: u64| #[trigger] w.seen.contains(x) <==> (after.contains(x) && w.high - x < 64) by {
                    if x != seq && accepted.contains(x) && w.high - x < 64 {
                        assert(v.seen.contains(x));
                    }
                }
                assert(summarises(w, after));
            }
        }
    }
}

proof fn lemma_window_run_summarises(offers: Seq<u64>)
    ensures
        summarises(window_run(offers), accepted_run(offers)),
    decreases offers.len(),
{
    if offers.len() == 0 {
        assert(!(exists|x: u64| #[trigger] Set::<u64>::empty().contains(x)));
    } else {
        lemma_window_run_summarises(offers.drop_last());
        lemma_summary_step(window_run(offers.drop_last()), accepted_run(offers.drop_last()), offers.last());
    }
}

/// Over any history of offers to a new window, the next offer is accepted exactly when it is
/// fresh against everything accepted before: never accepted, and no accepted number 64 or more
/// above it. So no number is accepted twice, and none 64 or more below the highest accepted.
pub proof fn lemma_replay_over_history(offers: Seq<u64>, seq: u64)
    ensures
        fresh_seq(window_run(offers), seq) == fresh_against(accepted_run(offers), seq),
        accepted_run(offers.push(seq)) == (if fresh_against(accepted_run(offers), seq) {
            accepted_run(offers).insert(seq)
        } else {
            accepted_run(offers)
        }),
{
    lemma_window_run_summarises(offers);
    lemma_summary_step(window_run(offers), accepted_run(offers), seq);
    assert(offers.push(seq).drop_last() =~= offers);
}


/// The window of `from` in a table of windows: its own, or a new one for a first message.
pub open spec fn window_of(m: Map<Seq<char>, ReplayView>, from: Seq<char>) -> ReplayView {
    if m.contains_key(from) { m[from] } else { empty_window() }
}

/// One replay window per sender id.
#[derive(Debug)]
pub struct SenderWindows {
    windows: StrMap<ReplayWindow>,
}

impl SenderWindows {
    pub closed spec fn wf(&self) -> bool {
        &&& self.windows.wf()
        &&& forall|k: Seq<char>| #[trigger] self.windows@.contains_key(k) ==> self.windows@[k].wf()
    }

    /// Sender id → that sender's window.
    pub closed spec fn view(&self) -> Map<Seq<char>, ReplayView> {
        self.windows@.map_values(|w: ReplayWindow| w@)
    }

    pub fn new() -> (t: Self)
        ensures
            t.wf(),
            t@ == Map::<Seq<char>, ReplayView>::empty(),
    {
        let t = SenderWindows { windows: StrMap::new() };
        assert(t@ =~= Map::<Seq<char>, ReplayView>::empty());
        t
    }

    /// Offer `seq` from `from` to that sender's window (a new one on the first message); the
    /// window is kept either way, advanced only when `seq` was fresh.
    pub fn accept(&mut self, from: &str, seq: u64) -> (ok: bool)
        requires
            old(self).wf(),
        ensures
            final(self).wf(),
            ok == fresh_seq(window_of(old(self)@, from@), seq),
            final(self)@ == old(self)@.insert(
                from@,
                if ok { window_after(window_of(old(self)@, from@), seq) } else { window_of(old(self)@, from@) },
            ),
    {
        let mut w = match self.windows.get(from) {
            Some(w) => *w,
            None => ReplayWindow::new(),
        };
        let ok = w.accept(seq);
        let ghost before = self.windows@;
        self.windows.insert(from.to_owned(), w);
        proof {
            assert(self@ =~= old(self)@.insert(
                from@,
                if ok { window_after(window_of(old(self)@, from@), seq) } else { window_of(old(self)@, from@) },
            ));
        }
        ok
    }
}

/// The sequence numbers a sender puts on its messages: 1, 2, 3, ...
#[derive(Debug)]
pub struct SendCounter {
    last: u64,
}

impl SendCounter {
    /// The last number handed out (0 before the first).
    pub closed spec fn last(&self) -> u64 {
        self.last
    }

    pub fn new() -> (c: Self)
        ensures
            c.last() == 0,
    {
        SendCounter { last: 0 }
    }

    /// The last number handed out.
    pub fn current(&self) -> (n: u64)
        ensures
            n == self.last(),
    {
        self.last
    }

    /// The next sequence number, one above the last.
    pub fn next(&mut self) -> (n: u64)
        requires
            old(self).last() < u64::MAX,
        ensures
            n == old(self).last() + 1,
            final(self).last() == n,
    {
        self.last = self.last + 1;
        self.last
    }
}

} // verus!
