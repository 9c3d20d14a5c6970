//! The bounded workspace-history stack.
//!
//! A `History` holds workspace numbers most-recently-visited first
//! (index 0 is the newest entry) together with a cursor into that
//! sequence.  Cursor 0 means "not navigating"; larger values point at
//! older entries reached while cycling back.

use vstd::prelude::*;

verus! {

/// Direction of cursor movement through a history stack.
#[derive(PartialEq, Eq, Clone, Copy, Structural, Debug)]
pub enum WSDirection {
    /// Toward newer entries (the cursor decreases).
    NEXT,
    /// Toward older entries (the cursor increases).
    PREV,
}

impl WSDirection {
    /// The sign convention used throughout: PREV is +1, NEXT is -1.
    pub open spec fn spec_to_i32(self) -> i32 {
        match self {
            WSDirection::NEXT => -1i32,
            WSDirection::PREV => 1i32,
        }
    }

    /// Direction encoded as an offset: non-negative means PREV.
    pub fn from_i32(i: i32) -> (d: WSDirection)
        ensures
            d == (if i >= 0 { WSDirection::PREV } else { WSDirection::NEXT }),
    {
        if i >= 0 {
            WSDirection::PREV
        } else {
            WSDirection::NEXT
        }
    }

    pub fn to_i32(self) -> (i: i32)
        ensures
            i == self.spec_to_i32(),
    {
        match self {
            WSDirection::NEXT => -1,
            WSDirection::PREV => 1,
        }
    }
}

/// One workspace-history stack: entries newest-first plus a cursor.
pub struct History {
    pub hist: Vec<i32>,
    pub hist_ptr: usize,
}

impl History {
    /// The entries, newest first.
    pub open spec fn entries(&self) -> Seq<i32> {
        self.hist@
    }

    /// The cursor: 0 when not navigating, otherwise an index of an entry.
    pub open spec fn cursor(&self) -> int {
        self.hist_ptr as int
    }

    /// Structural invariant: the cursor stays inside the stack
    /// (and sits at 0 while the stack is empty).
    pub open spec fn wf(&self) -> bool {
        if self.hist@.len() == 0 {
            self.hist_ptr == 0
        } else {
            self.hist_ptr < self.hist@.len()
        }
    }

    /// A fresh, empty stack.
    pub fn with_capacity(hist_sz: usize) -> (h: History)
        ensures
            h.entries() == Seq::<i32>::empty(),
            h.cursor() == 0,
            h.wf(),
    {
        History { hist: Vec::with_capacity(hist_sz), hist_ptr: 0 }
    }

    pub fn len(&self) -> (n: usize)
        ensures
            n == self.entries().len(),
    {
        self.hist.len()
    }

    /// The entry at `index` (newest is index 0).
    pub fn index(&self, index: usize) -> (ws: i32)
        requires
            index < self.entries().len(),
        ensures
            ws == self.entries()[index as int],
    {
        self.hist[index]
    }

    /// The entry under the cursor.
    pub fn current(&self) -> (ws: i32)
        requires
            self.entries().len() > 0,
            self.wf(),
        ensures
            ws == self.entries()[self.cursor()],
    {
        self.hist[self.hist_ptr]
    }

    pub fn cursor_pos(&self) -> (p: usize)
        ensures
            p == self.cursor(),
    {
        self.hist_ptr
    }

    /// Reset the cursor to 0, reversing the order of the entries that were
    /// cycled back through; a stale duplicate of the head just beyond the
    /// cursor is dropped first.  May shorten the stack by one.
    pub fn reset_ptr(&mut self)
        requires
            old(self).wf(),
        ensures
            final(self).entries() == spec_reset_entries(old(self).entries(), old(self).cursor()),
            final(self).cursor() == 0,
            final(self).wf(),
    {
        if self.hist_ptr > 0 {
            if self.hist_ptr < self.hist.len() - 1 && self.hist[self.hist_ptr + 1] == self.hist[0]
            {
                self.hist.remove(0);
            }
            let ghost s2 = self.hist@;
            let p = self.hist_ptr;
            let mut i: usize = 0;
            while i < p - i
                invariant
                    p == self.hist_ptr,
                    p < self.hist@.len(),
                    self.hist@.len() == s2.len(),
                    p >= 1,
                    2 * i <= p + 1,
                    forall|j: int| 0 <= j < i ==> self.hist@[j] == s2[p - j],
                    forall|j: int| p - i < j <= p ==> self.hist@[j] == s2[p - j],
                    forall|j: int| i <= j <= p - i ==> self.hist@[j] == s2[j],
                    forall|j: int| p < j < s2.len() ==> self.hist@[j] == s2[j],
                decreases p - i,
            {
                let a = self.hist[i];
                let b = self.hist[p - i];
                self.hist[i] = b;
                self.hist[p - i] = a;
                i += 1;
            }
            proof {
                let s0 = old(self).entries();
                let p0 = old(self).cursor();
                let rs = spec_reset_entries(s0, p0);
                assert forall|j: int| 0 <= j < s2.len() implies self.hist@[j] == rs[j] by {
                    if j <= p {
                        assert(s2.subrange(0, p as int + 1).reverse()[j] == s2[p - j]);
                        if j < i || j > p - i {
                        } else {
                            assert(s2[j] == s2[p - j]);
                        }
                    } else {
                        assert(rs[j] == s2.skip(p as int + 1)[j - (p + 1)]);
                    }
                }
                assert(self.hist@ =~= spec_reset_entries(s0, p0));
            }
            self.hist_ptr = 0;
        }
    }

    /// Record a visit of `ws_num`, per the deduplication rules: a repeat of
    /// the entry under the cursor is not recorded; a two-cycle oscillation
    /// collapses instead of growing; the stack is kept within `hist_sz`.
    pub fn push(&mut self, ws_num: i32, hist_sz: usize)
        requires
            old(self).wf(),
        ensures
            final(self).entries() == spec_added(
                old(self).entries(),
                old(self).cursor(),
                ws_num,
                hist_sz as nat,
            ),
            final(self).cursor() == (if old(self).entries().len() > 0 && old(self).entries()[old(
                self,
            ).cursor()] == ws_num {
                old(self).cursor()
            } else {
                0
            }),
            final(self).wf(),
    {
        if self.hist.len() == 0 || self.hist[self.hist_ptr] != ws_num {
            let ghost s0 = old(self).entries();
            let ghost p0 = old(self).cursor();
            self.reset_ptr();
            let ghost rs = self.hist@;
            if self.hist.len() > 2 && self.hist[0] == self.hist[2] && ws_num == self.hist[1] {
                self.hist.remove(0);
                proof {
                    assert(self.hist@ =~= rs.drop_first());
                }
            } else {
                self.hist.insert(0, ws_num);
                proof {
                    assert(self.hist@ =~= seq![ws_num] + rs);
                }
                if self.hist.len() > hist_sz {
                    self.hist.truncate(hist_sz);
                }
            }
        }
    }

    /// Move the cursor to `p` without touching the entries.
    pub fn set_cursor(&mut self, p: usize)
        requires
            p < old(self).entries().len(),
        ensures
            final(self).entries() == old(self).entries(),
            final(self).cursor() == p,
            final(self).wf(),
    {
        self.hist_ptr = p;
    }

    /// Remove the entry at `rm` and point the cursor at the entry that was
    /// at `target`, accounting for the index shift caused by the removal.
    pub fn remove_and_point(&mut self, rm: usize, target: usize)
        requires
            old(self).wf(),
            rm < old(self).entries().len(),
            target < old(self).entries().len(),
            rm != target,
        ensures
            final(self).entries() == old(self).entries().remove(rm as int),
            final(self).cursor() == (if rm < target {
                target - 1
            } else {
                target as int
            }),
            final(self).wf(),
    {
        self.hist.remove(rm);
        self.hist_ptr = target;
        if rm < self.hist_ptr {
            self.hist_ptr = self.hist_ptr - 1;
        }
    }

    /// Exchange the entries at `i` and `j`; the cursor does not move.
    pub fn swap_at(&mut self, i: usize, j: usize)
        requires
            old(self).wf(),
            i < old(self).entries().len(),
            j < old(self).entries().len(),
        ensures
            final(self).entries() == old(self).entries().update(i as int, old(self).entries()[j as int]).update(
                j as int,
                old(self).entries()[i as int],
            ),
            final(self).cursor() == old(self).cursor(),
            final(self).wf(),
    {
        let a = self.hist[i];
        let b = self.hist[j];
        self.hist[i] = b;
        self.hist[j] = a;
        proof {
            assert(self.hist@ =~= old(self).entries().update(
                i as int,
                old(self).entries()[j as int],
            ).update(j as int, old(self).entries()[i as int]));
        }
    }
}

/// Entries after a cursor reset: the part cycled back through is reversed
/// into absolute history order; a stale head duplicate is dropped first.
pub open spec fn spec_reset_entries(s: Seq<i32>, p: int) -> Seq<i32> {
    if p <= 0 {
        s
    } else {
        let s2 = if p + 1 < s.len() && s[p + 1] == s[0] {
            s.drop_first()
        } else {
            s
        };
        s2.subrange(0, p + 1).reverse() + s2.skip(p + 1)
    }
}

/// Entries after inserting `id` at the head of a reset stack: a two-cycle
/// oscillation collapses by dropping the head; otherwise the entry goes in
/// front and the oldest entry beyond `max` is evicted.
pub open spec fn spec_pushed(s: Seq<i32>, id: i32, max: nat) -> Seq<i32> {
    if s.len() > 2 && s[0] == s[2] && id == s[1] {
        s.drop_first()
    } else {
        let grown = seq![id] + s;
        if grown.len() > max {
            grown.subrange(0, max as int)
        } else {
            grown
        }
    }
}

/// Entries after recording a visit of `id` on a stack with cursor `p`:
/// a repeat of the entry under the cursor changes nothing; otherwise the
/// cursor is reset and `id` is pushed.
pub open spec fn spec_added(s: Seq<i32>, p: int, id: i32, max: nat) -> Seq<i32> {
    if s.len() > 0 && s[p] == id {
        s
    } else {
        spec_pushed(spec_reset_entries(s, p), id, max)
    }
}

/// No two neighbouring entries are equal.
pub open spec fn no_adjacent_dups(s: Seq<i32>) -> bool {
    forall|i: int| 0 <= i && i + 1 < s.len() ==> #[trigger] s[i] != s[i + 1]
}

/// Law: while the cursor rests at 0 (no navigation in progress), recording
/// a visit keeps the stack free of adjacent duplicates and within its bound.
pub proof fn lemma_added_keeps_invariant(s: Seq<i32>, id: i32, max: nat)
    requires
        no_adjacent_dups(s),
        s.len() <= max,
    ensures
        no_adjacent_dups(spec_added(s, 0, id, max)),
        spec_added(s, 0, id, max).len() <= max,
{
    if s.len() > 0 && s[0] == id {
    } else {
        let r = spec_pushed(s, id, max);
        if s.len() > 2 && s[0] == s[2] && id == s[1] {
            assert forall|i: int| 0 <= i && i + 1 < r.len() implies #[trigger] r[i] != r[i + 1] by {
                assert(r[i] == s[i + 1]);
                assert(r[i + 1] == s[i + 2]);
            }
        } else {
            let grown = seq![id] + s;
            assert forall|i: int| 0 <= i && i + 1 < grown.len() implies #[trigger] grown[i] != grown[i
                + 1] by {
                if i == 0 {
                    assert(grown[0] == id);
                    assert(grown[1] == s[0]);
                } else {
                    assert(grown[i] == s[i - 1]);
                    assert(grown[i + 1] == s[i]);
                }
            }
            if grown.len() > max {
                assert forall|i: int| 0 <= i && i + 1 < r.len() implies #[trigger] r[i] != r[i + 1] by {
                    assert(r[i] == grown[i]);
                    assert(r[i + 1] == grown[i + 1]);
                }
            }
        }
    }
}

/// The entries after recording a whole sequence of visits on an empty
/// stack, the cursor resting at 0 throughout (as it does while only
/// workspace changes arrive).
pub open spec fn spec_added_all(ids: Seq<i32>, max: nat) -> Seq<i32>
    decreases ids.len(),
{
    if ids.len() == 0 {
        Seq::empty()
    } else {
        spec_added(spec_added_all(ids.drop_last(), max), 0, ids.last(), max)
    }
}

/// Law: whatever sequence of workspace changes is recorded, the
/// resulting stack never holds two adjacent equal entries and never
/// exceeds the configured bound.
pub proof fn lemma_recording_keeps_invariant(ids: Seq<i32>, max: nat)
    ensures
        no_adjacent_dups(spec_added_all(ids, max)),
        spec_added_all(ids, max).len() <= max,
    decreases ids.len(),
{
    if ids.len() > 0 {
        lemma_recording_keeps_invariant(ids.drop_last(), max);
        lemma_added_keeps_invariant(spec_added_all(ids.drop_last(), max), ids.last(), max);
    }
}

/// Law: pushing `a`, `b`, `a`, `b` onto an empty stack leaves just
/// `[b, a]`: a two-workspace oscillation does not grow the history.
pub proof fn lemma_oscillation_collapses(a: i32, b: i32, max: nat)
    requires
        a != b,
        max >= 3,
    ensures
        ({
            let s1 = spec_added(Seq::<i32>::empty(), 0, a, max);
            let s2 = spec_added(s1, 0, b, max);
            let s3 = spec_added(s2, 0, a, max);
            let s4 = spec_added(s3, 0, b, max);
            s4 == seq![b, a]
        }),
{
    let s1 = spec_added(Seq::<i32>::empty(), 0, a, max);
    assert(s1 =~= seq![a]);
    let s2 = spec_added(s1, 0, b, max);
    assert(seq![b] + seq![a] =~= seq![b, a]);
    assert(s2 =~= seq![b, a]);
    let s3 = spec_added(s2, 0, a, max);
    assert(seq![a] + seq![b, a] =~= seq![a, b, a]);
    assert(s3 =~= seq![a, b, a]);
    let s4 = spec_added(s3, 0, b, max);
    assert(seq![a, b, a].drop_first() =~= seq![b, a]);
    assert(s4 =~= seq![b, a]);
}

/// Law: once the stack reads `[b, a]`, pushing `a` then `b` again returns
/// it to `[b, a]`; repetition of the oscillation is stable at length 2.
pub proof fn lemma_oscillation_stable(a: i32, b: i32, max: nat)
    requires
        a != b,
        max >= 3,
    ensures
        spec_added(spec_added(seq![b, a], 0, a, max), 0, b, max) == seq![b, a],
{
    let s3 = spec_added(seq![b, a], 0, a, max);
    assert(seq![a] + seq![b, a] =~= seq![a, b, a]);
    assert(s3 =~= seq![a, b, a]);
    let s4 = spec_added(s3, 0, b, max);
    assert(seq![a, b, a].drop_first() =~= seq![b, a]);
    assert(s4 =~= seq![b, a]);
}

/// `k` repetitions of the pair `a`, `b`, as one sequence of visits.
pub open spec fn spec_alternating(a: i32, b: i32, k: nat) -> Seq<i32>
    decreases k,
{
    if k == 0 {
        Seq::empty()
    } else {
        spec_alternating(a, b, (k - 1) as nat) + seq![a, b]
    }
}

/// Law: however often the oscillation `a`, `b` repeats (at least
/// twice), the recorded history stabilizes at `[b, a]` — length 2 —
/// rather than growing with each repetition.
pub proof fn lemma_oscillation_repeated(a: i32, b: i32, k: nat, max: nat)
    requires
        a != b,
        max >= 3,
        k >= 2,
    ensures
        spec_added_all(spec_alternating(a, b, k), max) == seq![b, a],
    decreases k,
{
    let ids = spec_alternating(a, b, k);
    assert(ids.last() == b);
    assert(ids.drop_last().last() == a) by {
        assert(ids.drop_last() =~= spec_alternating(a, b, (k - 1) as nat) + seq![a]);
    }
    let rest = ids.drop_last().drop_last();
    assert(rest =~= spec_alternating(a, b, (k - 1) as nat));
    if k == 2 {
        assert(spec_alternating(a, b, 0nat) =~= Seq::<i32>::empty());
        assert(rest =~= Seq::<i32>::empty() + seq![a, b]);
        assert(rest =~= seq![a, b]);
        assert(spec_added_all(Seq::<i32>::empty(), max) == Seq::<i32>::empty());
        assert(rest.last() == b);
        assert(rest.drop_last() =~= seq![a]);
        assert(rest.drop_last().last() == a);
        assert(rest.drop_last().drop_last() =~= Seq::<i32>::empty());
        lemma_oscillation_collapses(a, b, max);
        let e0 = Seq::<i32>::empty();
        let s1 = spec_added(e0, 0, a, max);
        let s2 = spec_added(s1, 0, b, max);
        let s3 = spec_added(s2, 0, a, max);
        assert(spec_added_all(rest.drop_last(), max) == s1);
        assert(spec_added_all(rest, max) == s2);
        assert(spec_added_all(ids.drop_last(), max) == s3);
        assert(spec_added_all(ids, max) == spec_added(s3, 0, b, max));
    } else {
        lemma_oscillation_repeated(a, b, (k - 1) as nat, max);
        lemma_oscillation_stable(a, b, max);
        let s3 = spec_added(seq![b, a], 0, a, max);
        assert(spec_added_all(ids.drop_last(), max) == s3);
        assert(spec_added_all(ids, max) == spec_added(s3, 0, b, max));
    }
}

} // verus!

