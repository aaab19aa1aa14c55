//! Timers scheduled by scripts (`setTimeout`): which callbacks are due and
//! the code each one runs.  Time is counted in milliseconds on a clock the
//! caller reads.

use vstd::prelude::*;
use crate::text::{chars_of, string_from_chars, push_str, push_chars, has_prefix, starts_with_str};

verus! {

/// A callback waiting for its time.
#[derive(Debug, Clone)]
pub struct PendingCallback {
    /// The code to run.
    pub code: String,
    /// When it is due, in milliseconds.
    pub fire_time: u64,
}

/// Whether `=>` starts at position `i` of `s`.
pub open spec fn arrow_at(s: Seq<char>, i: int) -> bool {
    0 <= i && i + 1 < s.len() && s[i] == '=' && s[i + 1] == '>'
}

/// Whether `s` contains `=>`.
pub open spec fn has_arrow(s: Seq<char>) -> bool {
    exists|i: int| #[trigger] arrow_at(s, i)
}

/// The code run for a callback: a function (written `function...` or with
/// `=>`) is called, anything else runs as it is.
pub open spec fn callback_code(code: Seq<char>) -> Seq<char> {
    if has_prefix(code, "function"@) || has_arrow(code) {
        "("@ + code + ")()"@
    } else {
        code
    }
}

fn contains_arrow(s: &[char]) -> (r: bool)
    ensures
        r == has_arrow(s@),
{
    let mut i: usize = 0;
    while i < s.len()
        invariant
            i <= s@.len(),
            forall|k: int| 0 <= k < i ==> !#[trigger] arrow_at(s@, k),
        decreases s@.len() - i,
    {
        if i + 1 < s.len() && s[i] == '=' && s[i + 1] == '>' {
            assert(arrow_at(s@, i as int));
            return true;
        }
        i = i + 1;
    }
    assert forall|k: int| !#[trigger] arrow_at(s@, k) by {
        if 0 <= k < i {
        }
    }
    false
}

/// The code to run for a timer callback.
pub fn timer_code(code: &str) -> (r: String)
    ensures
        r@ == callback_code(code@),
{
    let c = chars_of(code);
    if starts_with_str(c.as_slice(), "function") || contains_arrow(c.as_slice()) {
        let mut v: Vec<char> = Vec::new();
        push_str(&mut v, "(");
        push_chars(&mut v, c.as_slice());
        push_str(&mut v, ")()");
        string_from_chars(v.as_slice())
    } else {
        string_from_chars(c.as_slice())
    }
}

/// The callbacks of `s` that are due at `now`, with their ids, in order.
pub open spec fn due(s: Seq<(u32, PendingCallback)>, now: u64) -> Seq<(u32, PendingCallback)>
    decreases s.len(),
{
    if s.len() == 0 {
        s
    } else if s.last().1.fire_time <= now {
        due(s.drop_last(), now).push(s.last())
    } else {
        due(s.drop_last(), now)
    }
}

/// The callbacks of `s` still waiting at `now`, in order.
pub open spec fn waiting(s: Seq<(u32, PendingCallback)>, now: u64) -> Seq<(u32, PendingCallback)>
    decreases s.len(),
{
    if s.len() == 0 {
        s
    } else if s.last().1.fire_time <= now {
        waiting(s.drop_last(), now)
    } else {
        waiting(s.drop_last(), now).push(s.last())
    }
}

/// `s` without the callback of timer `id`.
pub open spec fn without_timer(s: Seq<(u32, PendingCallback)>, id: u32) -> Seq<(u32, PendingCallback)>
    decreases s.len(),
{
    if s.len() == 0 {
        s
    } else if s.last().0 == id {
        without_timer(s.drop_last(), id)
    } else {
        without_timer(s.drop_last(), id).push(s.last())
    }
}

proof fn lemma_without_ids(s: Seq<(u32, PendingCallback)>, id: u32, bound: u32)
    requires
        forall|i: int| 0 <= i < s.len() ==> (#[trigger] s[i]).0 < bound,
    ensures
        forall|i: int| 0 <= i < without_timer(s, id).len() ==> (#[trigger] without_timer(s, id)[i]).0 < bound,
    decreases s.len(),
{
    if s.len() > 0 {
        lemma_without_ids(s.drop_last(), id, bound);
        assert(s.last() == s[s.len() - 1]);
        let w = without_timer(s, id);
        let w0 = without_timer(s.drop_last(), id);
        assert forall|i: int| 0 <= i < w.len() implies (#[trigger] w[i]).0 < bound by {
            if i < w0.len() {
                assert(w[i] == w0[i]);
            }
        }
    }
}

/// The timers scheduled by scripts.
pub struct TimerQueue {
    pending: Vec<(u32, PendingCallback)>,
    next_id: u32,
}

impl TimerQueue {
    /// The waiting callbacks with their ids, in the order scheduled.
    pub closed spec fn callbacks(self) -> Seq<(u32, PendingCallback)> {
        self.pending@
    }

    /// The id the next timer receives.
    pub closed spec fn next(self) -> u32 {
        self.next_id
    }

    /// Ids are below the next id.
    pub closed spec fn wf(self) -> bool {
        forall|i: int| 0 <= i < self.pending@.len() ==> (#[trigger] self.pending@[i]).0 < self.next_id
    }

    /// No timers; the first id is 1.
    pub fn new() -> (r: Self)
        ensures
            r.wf(),
            r.callbacks() == Seq::<(u32, PendingCallback)>::empty(),
            r.next() == 1,
    {
        TimerQueue { pending: Vec::new(), next_id: 1 }
    }

    /// Schedules `code` to run `delay_ms` after `now`, returning its id.
    pub fn schedule(&mut self, code: String, now: u64, delay_ms: u64) -> (id: u32)
        requires
            old(self).wf(),
            old(self).next() < u32::MAX,
            now + delay_ms <= u64::MAX,
        ensures
            final(self).wf(),
            id == old(self).next(),
            final(self).next() == old(self).next() + 1,
            final(self).callbacks() == old(self).callbacks().push(
                (id, PendingCallback { code: code, fire_time: (now + delay_ms) as u64 }),
            ),
    {
        let id = self.next_id;
        self.next_id = self.next_id + 1;
        self.pending.push((id, PendingCallback { code, fire_time: now + delay_ms }));
        id
    }

    /// Cancels timer `id` (`clearTimeout`).
    pub fn cancel(&mut self, id: u32)
        requires
            old(self).wf(),
        ensures
            final(self).wf(),
            final(self).next() == old(self).next(),
            final(self).callbacks() == without_timer(old(self).callbacks(), id),
    {
        let mut kept: Vec<(u32, PendingCallback)> = Vec::new();
        let mut i: usize = 0;
        while i < self.pending.len()
            invariant
                i <= self.pending@.len(),
                self.pending@ == old(self).pending@,
                self.next_id == old(self).next_id,
                kept@ == without_timer(self.pending@.take(i as int), id),
            decreases self.pending@.len() - i,
        {
            proof {
                assert(self.pending@.take(i + 1).drop_last() =~= self.pending@.take(i as int));
            }
            if self.pending[i].0 != id {
                kept.push((self.pending[i].0, PendingCallback { code: self.pending[i].1.code.clone(), fire_time: self.pending[i].1.fire_time }));
            }
            i = i + 1;
        }
        assert(self.pending@.take(self.pending@.len() as int) =~= self.pending@);
        proof {
            lemma_without_ids(self.pending@, id, self.next_id);
        }
        self.pending = kept;
    }

    /// Takes out the callbacks due at `now`, in the order scheduled, with
    /// the code each one runs; the others keep waiting.
    pub fn take_due(&mut self, now: u64) -> (r: Vec<(u32, String)>)
        requires
            old(self).wf(),
        ensures
            final(self).wf(),
            final(self).next() == old(self).next(),
            final(self).callbacks() == waiting(old(self).callbacks(), now),
            r@.len() == due(old(self).callbacks(), now).len(),
            forall|k: int| 0 <= k < r@.len() ==> (#[trigger] r@[k]).0 == due(old(self).callbacks(), now)[k].0
                && r@[k].1@ == callback_code(due(old(self).callbacks(), now)[k].1.code@),
    {
        let mut ready: Vec<(u32, String)> = Vec::new();
        let mut kept: Vec<(u32, PendingCallback)> = Vec::new();
        let mut i: usize = 0;
        while i < self.pending.len()
            invariant
                i <= self.pending@.len(),
                self.pending@ == old(self).pending@,
                self.next_id == old(self).next_id,
                kept@ == waiting(self.pending@.take(i as int), now),
                ready@.len() == due(self.pending@.take(i as int), now).len(),
                forall|k: int| 0 <= k < ready@.len() ==> (#[trigger] ready@[k]).0 == due(self.pending@.take(i as int), now)[k].0
                    && ready@[k].1@ == callback_code(due(self.pending@.take(i as int), now)[k].1.code@),
            decreases self.pending@.len() - i,
        {
            proof {
                assert(self.pending@.take(i + 1).drop_last() =~= self.pending@.take(i as int));
            }
            let entry = &self.pending[i];
            if entry.1.fire_time <= now {
                let code = timer_code(entry.1.code.as_str());
                ready.push((entry.0, code));
            } else {
                kept.push((entry.0, PendingCallback { code: entry.1.code.clone(), fire_time: entry.1.fire_time }));
            }
            i = i + 1;
        }
        assert(self.pending@.take(self.pending@.len() as int) =~= self.pending@);
        proof {
            lemma_waiting_ids(self.pending@, now, self.next_id);
        }
        self.pending = kept;
        ready
    }
}

proof fn lemma_waiting_ids(s: Seq<(u32, PendingCallback)>, now: u64, bound: u32)
    requires
        forall|i: int| 0 <= i < s.len() ==> (#[trigger] s[i]).0 < bound,
    ensures
        forall|i: int| 0 <= i < waiting(s, now).len() ==> (#[trigger] waiting(s, now)[i]).0 < bound,
    decreases s.len(),
{
    if s.len() > 0 {
        lemma_waiting_ids(s.drop_last(), now, bound);
        assert(s.last() == s[s.len() - 1]);
        let w = waiting(s, now);
        let w0 = waiting(s.drop_last(), now);
        assert forall|i: int| 0 <= i < w.len() implies (#[trigger] w[i]).0 < bound by {
            if i < w0.len() {
                assert(w[i] == w0[i]);
            }
        }
    }
}


/// Taking out the due callbacks splits the waiting ones in two: every
/// callback is either due or still waiting, none is lost or doubled.
pub proof fn lemma_due_and_waiting_partition(s: Seq<(u32, PendingCallback)>, now: u64)
    ensures
        due(s, now).len() + waiting(s, now).len() == s.len(),
        forall|i: int| 0 <= i < due(s, now).len() ==> (#[trigger] due(s, now)[i]).1.fire_time <= now,
        forall|i: int| 0 <= i < waiting(s, now).len() ==> (#[trigger] waiting(s, now)[i]).1.fire_time > now,
    decreases s.len(),
{
    if s.len() > 0 {
        lemma_due_and_waiting_partition(s.drop_last(), now);
        let d = due(s, now);
        let d0 = due(s.drop_last(), now);
        let w = waiting(s, now);
        let w0 = waiting(s.drop_last(), now);
        assert forall|i: int| 0 <= i < d.len() implies (#[trigger] d[i]).1.fire_time <= now by {
            if i < d0.len() {
                assert(d[i] == d0[i]);
            }
        }
        assert forall|i: int| 0 <= i < w.len() implies (#[trigger] w[i]).1.fire_time > now by {
            if i < w0.len() {
                assert(w[i] == w0[i]);
            }
        }
    }
}

} // verus!
