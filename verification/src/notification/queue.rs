//! The notifications on the screen.

use std::collections::VecDeque;

use vstd::prelude::*;

use super::types::FloatKind;
use super::types::LiveFloat;
use super::types::LiveToast;
use super::types::Notification;
use super::types::NotificationView;

verus! {

/// How long a toast stays, in nanoseconds.
pub const TOAST_TTL: u64 = 5_000_000_000;

/// How long a floating number stays, in nanoseconds.
pub const FLOAT_TTL: u64 = 1_500_000_000;

/// How many toasts there are at most.
pub const TOAST_MAX: usize = 10;

/// Nanoseconds from `then` to `now`, 0 where `now` is earlier.
pub open spec fn age(then: u64, now: u64) -> int {
    if now >= then {
        now - then
    } else {
        0
    }
}

/// Whether a toast still counts at `now`.
pub open spec fn toast_lives(t: LiveToast, now: u64) -> bool {
    age(t.spawned_at, now) < TOAST_TTL
}

/// Whether a floating number still counts at `now`.
pub open spec fn float_lives(f: LiveFloat, now: u64) -> bool {
    age(f.spawned_at, now) < FLOAT_TTL
}

/// The position of the number that counts `kind`.
pub open spec fn float_of(floats: Seq<LiveFloat>, kind: FloatKind) -> Option<int>
    decreases floats.len(),
{
    if floats.len() == 0 {
        None
    } else if floats.last().kind == kind && float_of(floats.drop_last(), kind) is None {
        Some(floats.len() - 1)
    } else {
        float_of(floats.drop_last(), kind)
    }
}

/// The floating numbers after one more drop: a number that counts the same kind
/// grows (up to the largest number there is) and starts anew; else there is one
/// number more.
pub open spec fn after_drop(
    floats: Seq<LiveFloat>,
    kind: FloatKind,
    amount: u32,
    now: u64,
) -> Seq<LiveFloat> {
    match float_of(floats, kind) {
        Some(i) => floats.update(
            i,
            LiveFloat {
                spawned_at: now,
                amount: if floats[i].amount + amount > u32::MAX {
                    u32::MAX
                } else {
                    (floats[i].amount + amount) as u32
                },
                ..floats[i]
            },
        ),
        None => floats.push(LiveFloat { spawned_at: now, kind, amount, cascade_offset: 0 }),
    }
}

proof fn float_of_facts(floats: Seq<LiveFloat>, kind: FloatKind)
    ensures
        float_of(floats, kind) matches Some(i) ==> 0 <= i < floats.len() && floats[i].kind == kind
            && forall|k: int| 0 <= k < i ==> floats[k].kind != kind,
        float_of(floats, kind) is None ==> forall|k: int|
            0 <= k < floats.len() ==> floats[k].kind != kind,
    decreases floats.len(),
{
    if floats.len() > 0 {
        float_of_facts(floats.drop_last(), kind);
        assert forall|k: int| 0 <= k < floats.len() - 1 implies floats[k] == floats.drop_last()[k] by {
        }
    }
}

proof fn float_of_at(floats: Seq<LiveFloat>, kind: FloatKind, i: int)
    requires
        0 <= i < floats.len(),
        floats[i].kind == kind,
        forall|k: int| 0 <= k < i ==> floats[k].kind != kind,
    ensures
        float_of(floats, kind) == Some(i),
{
    float_of_facts(floats, kind);
}

/// Toasts, oldest first, and floating numbers.
#[derive(Debug)]
pub struct NotificationQueue {
    pub toasts: VecDeque<LiveToast>,
    pub floats: VecDeque<LiveFloat>,
}

impl Default for NotificationQueue {
    fn default() -> (r: Self)
        ensures
            r.toasts@.len() == 0,
            r.floats@.len() == 0,
    {
        NotificationQueue { toasts: VecDeque::new(), floats: VecDeque::new() }
    }
}

/// The newest `TOAST_MAX` of the toasts.
pub open spec fn newest(toasts: Seq<(u64, u16, Seq<u8>)>) -> Seq<(u64, u16, Seq<u8>)> {
    if toasts.len() > TOAST_MAX {
        toasts.skip(toasts.len() - TOAST_MAX)
    } else {
        toasts
    }
}

impl NotificationQueue {
    /// There are never too many toasts, nor two numbers that count the same kind.
    pub open spec fn wf(&self) -> bool {
        &&& self.toasts@.len() <= TOAST_MAX
        &&& forall|i: int, j: int|
            0 <= i < j < self.floats@.len() ==> (#[trigger] self.floats@[i]).kind != (
            #[trigger] self.floats@[j]).kind
    }

    /// The contents of the toasts.
    pub open spec fn toast_views(&self) -> Seq<(u64, u16, Seq<u8>)> {
        Seq::new(self.toasts@.len(), |i: int| self.toasts@[i]@)
    }

    pub fn new() -> (r: Self)
        ensures
            r.wf(),
            r.toasts@.len() == 0,
            r.floats@.len() == 0,
    {
        NotificationQueue { toasts: VecDeque::new(), floats: VecDeque::new() }
    }

    /// Adds a notification: a toast pushes the oldest one out where there are too
    /// many.
    pub fn push(&mut self, n: Notification, now: u64)
        requires
            old(self).wf(),
        ensures
            final(self).wf(),
            n@ matches NotificationView::Toast(gfxid, text) ==> final(self).floats@ == old(
                self,
            ).floats@ && final(self).toast_views() == newest(
                old(self).toast_views().push((now, gfxid, text)),
            ),
            n@ matches NotificationView::Float(kind, amount) ==> final(self).toasts@ == old(
                self,
            ).toasts@ && final(self).floats@ == after_drop(old(self).floats@, kind, amount, now),
    {
        match n {
            Notification::ToastBottomLeft { gfxid, text } => {
                let ghost before = self.toast_views();
                if self.toasts.len() >= TOAST_MAX {
                    let _ = self.toasts.pop_front();
                }
                self.toasts.push_back(LiveToast { spawned_at: now, gfxid, text });
                assert(self.toast_views() =~= newest(before.push((now, gfxid, text@))));
            },
            Notification::FloatingScreen { kind, amount } => {
                let mut i: usize = 0;
                let n: usize = self.floats.len();
                let ghost floats = self.floats@;
                while i < n && self.floats[i].kind != kind
                    invariant
                        n == self.floats@.len(),
                        i <= n,
                        self.floats@ == floats,
                        forall|k: int| 0 <= k < i ==> floats[k].kind != kind,
                    decreases n - i,
                {
                    i += 1;
                }
                proof {
                    float_of_facts(floats, kind);
                }
                if i < n {
                    proof {
                        float_of_at(floats, kind, i as int);
                    }
                    let f: LiveFloat = self.floats[i];
                    let merged = LiveFloat {
                        spawned_at: now,
                        kind: f.kind,
                        amount: f.amount.saturating_add(amount),
                        cascade_offset: f.cascade_offset,
                    };
                    let _ = self.floats.remove(i);
                    self.floats.insert(i, merged);
                    assert(self.floats@ =~= after_drop(floats, kind, amount, now));
                    assert(self.floats@[i as int].kind == floats[i as int].kind);
                } else {
                    self.floats.push_back(
                        LiveFloat { spawned_at: now, kind, amount, cascade_offset: 0 },
                    );
                }
            },
        }
    }

    /// Drops what has been shown long enough and keeps the rest, in order.
    pub fn tick(&mut self, now: u64)
        requires
            old(self).wf(),
        ensures
            final(self).wf(),
            final(self).toasts@ == old(self).toasts@.filter(|t: LiveToast| toast_lives(t, now)),
            final(self).floats@ == old(self).floats@.filter(|f: LiveFloat| float_lives(f, now)),
    {
        let ghost toasts = self.toasts@;
        let ghost floats = self.floats@;
        let ghost keep_toast = |t: LiveToast| toast_lives(t, now);
        let ghost keep_float = |f: LiveFloat| float_lives(f, now);
        let mut kept: VecDeque<LiveToast> = VecDeque::new();
        let ghost mut done: int = 0;
        proof {
            reveal(Seq::filter);
            assert(toasts.skip(0) =~= toasts);
        }
        while self.toasts.len() > 0
            invariant
                0 <= done <= toasts.len(),
                self.toasts@ == toasts.skip(done),
                self.floats@ == floats,
                kept@ == toasts.take(done).filter(keep_toast),
                keep_toast == (|t: LiveToast| toast_lives(t, now)),
                kept@.len() <= done,
            decreases self.toasts@.len(),
        {
            proof {
                reveal(Seq::filter);
                assert(toasts.take(done + 1).drop_last() =~= toasts.take(done));
                assert(toasts.skip(done).drop_first() =~= toasts.skip(done + 1));
                assert(toasts.skip(done).subrange(1, toasts.len() - done) =~= toasts.skip(done + 1));
            }
            if let Some(t) = self.toasts.pop_front() {
                if now.saturating_sub(t.spawned_at) < TOAST_TTL {
                    kept.push_back(t);
                }
            }
            proof {
                done = done + 1;
            }
        }
        assert(toasts.take(done) =~= toasts);
        self.toasts = kept;
        let mut kept_floats: VecDeque<LiveFloat> = VecDeque::new();
        proof {
            done = 0;
            reveal(Seq::filter);
            assert(floats.skip(0) =~= floats);
        }
        while self.floats.len() > 0
            invariant
                0 <= done <= floats.len(),
                self.floats@ == floats.skip(done),
                self.toasts@ == toasts.filter(keep_toast),
                kept_floats@ == floats.take(done).filter(keep_float),
                keep_float == (|f: LiveFloat| float_lives(f, now)),
            decreases self.floats@.len(),
        {
            proof {
                reveal(Seq::filter);
                assert(floats.take(done + 1).drop_last() =~= floats.take(done));
                assert(floats.skip(done).drop_first() =~= floats.skip(done + 1));
                assert(floats.skip(done).subrange(1, floats.len() - done) =~= floats.skip(done + 1));
            }
            if let Some(f) = self.floats.pop_front() {
                if now.saturating_sub(f.spawned_at) < FLOAT_TTL {
                    kept_floats.push_back(f);
                }
            }
            proof {
                done = done + 1;
            }
        }
        assert(floats.take(done) =~= floats);
        self.floats = kept_floats;
        proof {
            filter_keeps_kinds_apart(floats, keep_float);
        }
    }

    pub fn toast_count(&self) -> (r: usize)
        ensures
            r == self.toasts@.len(),
    {
        self.toasts.len()
    }

    pub fn float_count(&self) -> (r: usize)
        ensures
            r == self.floats@.len(),
    {
        self.floats.len()
    }
}

proof fn filter_keeps_kinds_apart(floats: Seq<LiveFloat>, keep: spec_fn(LiveFloat) -> bool)
    requires
        forall|i: int, j: int|
            0 <= i < j < floats.len() ==> (#[trigger] floats[i]).kind != (
            #[trigger] floats[j]).kind,
    ensures
        forall|i: int, j: int|
            0 <= i < j < floats.filter(keep).len() ==> (#[trigger] floats.filter(keep)[i]).kind
                != (#[trigger] floats.filter(keep)[j]).kind,
        forall|i: int|
            0 <= i < floats.filter(keep).len() ==> floats.contains(
                #[trigger] floats.filter(keep)[i],
            ),
    decreases floats.len(),
{
    reveal(Seq::filter);
    if floats.len() > 0 {
        let rest = floats.drop_last();
        filter_keeps_kinds_apart(rest, keep);
        assert forall|i: int| 0 <= i < rest.filter(keep).len() implies floats.contains(
            #[trigger] rest.filter(keep)[i],
        ) && rest.filter(keep)[i].kind != floats.last().kind by {
            let k = rest.index_of(rest.filter(keep)[i]);
            assert(floats[k] == rest.filter(keep)[i]);
        }
        assert(floats[floats.len() - 1] == floats.last());
    }
}

/// There are at most two floating numbers, one per kind.
pub proof fn at_most_one_float_per_kind(q: NotificationQueue)
    requires
        q.wf(),
    ensures
        q.floats@.len() <= 2,
{
    if q.floats@.len() > 2 {
        assert(q.floats@[0].kind != q.floats@[1].kind);
        assert(q.floats@[0].kind != q.floats@[2].kind);
        assert(q.floats@[1].kind != q.floats@[2].kind);
    }
}

/// Looking twice at the same time drops nothing more.
pub proof fn tick_is_idempotent(toasts: Seq<LiveToast>, now: u64)
    ensures
        ({
            let keep = |t: LiveToast| toast_lives(t, now);
            toasts.filter(keep).filter(keep) == toasts.filter(keep)
        }),
    decreases toasts.len(),
{
    reveal(Seq::filter);
    let keep = |t: LiveToast| toast_lives(t, now);
    if toasts.len() > 0 {
        tick_is_idempotent(toasts.drop_last(), now);
        let rest = toasts.drop_last().filter(keep);
        if keep(toasts.last()) {
            assert(rest.push(toasts.last()).drop_last() =~= rest);
        }
    }
}

} // verus!
