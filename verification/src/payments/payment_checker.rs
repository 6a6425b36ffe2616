//! Deadlines that somebody waits on: each is tracked until it is stopped or
//! until its instant has come, whichever is first.
//!
//! The tracker keeps its entries ordered by deadline; entries with the same
//! deadline stay in the order in which they were entered. The caller owns the
//! clock: it asks with the present instant for the entries that have elapsed.

use crate::keyed::{same_text, Key};
use crate::payments::agreement::Timestamp;
use vstd::prelude::*;

verus! {

/// A tracked deadline, as contracts see it.
pub struct Deadline {
    /// Whom the item belongs to.
    pub owner: Key,
    /// The item that is waited for.
    pub item: Key,
    /// The instant at which the wait is over.
    pub at: Timestamp,
}

/// Asks the tracker to watch the deadline of the item `id`.
pub struct TrackDeadline {
    pub agreement_id: String,
    pub id: String,
    pub deadline: Timestamp,
}

/// Asks the tracker to forget the item `id`.
pub struct StopTracking {
    pub id: String,
}

/// Says that the deadline of the item `id` has passed while it was tracked.
pub struct DeadlineElapsed {
    pub agreement_id: String,
    pub id: String,
    pub deadline: Timestamp,
}

impl View for TrackDeadline {
    type V = Deadline;

    open spec fn view(&self) -> Deadline {
        Deadline { owner: self.agreement_id@, item: self.id@, at: self.deadline }
    }
}

impl View for DeadlineElapsed {
    type V = Deadline;

    open spec fn view(&self) -> Deadline {
        Deadline { owner: self.agreement_id@, item: self.id@, at: self.deadline }
    }
}

/// The deadlines that a list of notices speaks of.
pub open spec fn notices(v: Seq<DeadlineElapsed>) -> Seq<Deadline> {
    v.map_values(|e: DeadlineElapsed| e@)
}

/// The entries are in the order of their deadlines.
pub open spec fn ordered(s: Seq<Deadline>) -> bool {
    forall|i: int, j: int| 0 <= i < j < s.len() ==> (#[trigger] s[i]).at <= (#[trigger] s[j]).at
}

/// No item has two entries.
pub open spec fn single(s: Seq<Deadline>) -> bool {
    forall|i: int, j: int| 0 <= i < j < s.len() ==> (#[trigger] s[i]).item != (#[trigger] s[j]).item
}

/// Some entry of `s` is for `item`.
pub open spec fn tracks(s: Seq<Deadline>, item: Key) -> bool {
    exists|i: int| 0 <= i < s.len() && (#[trigger] s[i]).item == item
}

/// How many entries of `s` are for `item`.
pub open spec fn count_of(s: Seq<Deadline>, item: Key) -> nat
    decreases s.len(),
{
    if s.len() == 0 {
        0
    } else {
        count_of(s.drop_last(), item) + if s.last().item == item {
            1nat
        } else {
            0nat
        }
    }
}

/// The length of the longest prefix of `s` whose deadlines are at or before `now`.
pub open spec fn due_count(s: Seq<Deadline>, now: Timestamp) -> nat
    decreases s.len(),
{
    if s.len() == 0 || s[0].at > now {
        0
    } else {
        1 + due_count(s.drop_first(), now)
    }
}

/// The entries of `s` that are not for `item`, in their order.
pub open spec fn stopped(s: Seq<Deadline>, item: Key) -> Seq<Deadline> {
    s.filter(|e: Deadline| e.item != item)
}

/// The entries after `e` was entered: an older entry for the same item is
/// gone, and `e` stands behind every entry whose deadline is not later than
/// its own.
pub open spec fn entered(s: Seq<Deadline>, e: Deadline) -> Seq<Deadline> {
    let rest = stopped(s, e.item);
    rest.insert(due_count(rest, e.at) as int, e)
}

/// The notices that are given at the instant `now`, in their order.
pub open spec fn fired(s: Seq<Deadline>, now: Timestamp) -> Seq<Deadline> {
    s.take(due_count(s, now) as int)
}

/// The entries that stay tracked after the instant `now`.
pub open spec fn pending(s: Seq<Deadline>, now: Timestamp) -> Seq<Deadline> {
    s.skip(due_count(s, now) as int)
}

/// The due prefix is a prefix, everything in it is due, and what follows it
/// directly is not.
pub proof fn lemma_due_count(s: Seq<Deadline>, now: Timestamp)
    ensures
        due_count(s, now) <= s.len(),
        forall|i: int| 0 <= i < due_count(s, now) ==> (#[trigger] s[i]).at <= now,
        due_count(s, now) < s.len() ==> s[due_count(s, now) as int].at > now,
    decreases s.len(),
{
    if s.len() == 0 || s[0].at > now {
    } else {
        let r = s.drop_first();
        lemma_due_count(r, now);
        assert forall|i: int| 0 <= i < due_count(s, now) implies (#[trigger] s[i]).at <= now by {
            if i > 0 {
                assert(s[i] == r[i - 1]);
            }
        }
        if due_count(s, now) < s.len() {
            assert(s[due_count(s, now) as int] == r[due_count(r, now) as int]);
        }
    }
}

/// In an ordered list nothing behind the due prefix is due.
pub proof fn lemma_pending_not_due(s: Seq<Deadline>, now: Timestamp)
    requires
        ordered(s),
    ensures
        forall|i: int| due_count(s, now) <= i < s.len() ==> (#[trigger] s[i]).at > now,
{
    lemma_due_count(s, now);
    let k = due_count(s, now) as int;
    assert forall|i: int| k <= i < s.len() implies (#[trigger] s[i]).at > now by {
        if k < i {
            assert(s[k].at <= s[i].at);
        }
    }
}

/// Filtering keeps the order and the singleness of the entries, and leaves no
/// entry for the item.
pub proof fn lemma_stopped(s: Seq<Deadline>, item: Key)
    requires
        ordered(s),
        single(s),
    ensures
        ordered(stopped(s, item)),
        single(stopped(s, item)),
        !tracks(stopped(s, item), item),
        !tracks(s, item) ==> stopped(s, item) == s,
        forall|other: Key| other != item ==> (tracks(stopped(s, item), other) <==> tracks(s, other)),
    decreases s.len(),
{
    reveal(Seq::filter);
    let pred = |e: Deadline| e.item != item;
    let t = stopped(s, item);
    if s.len() == 0 {
        assert(t =~= s);
    } else {
        let r = s.drop_last();
        let n = s.len() - 1;
        assert forall|i: int, j: int| 0 <= i < j < r.len() implies (#[trigger] r[i]).at <= (
        #[trigger] r[j]).at && r[i].item != r[j].item by {
            assert(r[i] == s[i] && r[j] == s[j]);
        }
        lemma_stopped(r, item);
        let tr = stopped(r, item);
        lemma_filter_members(r, item);
        lemma_filter_members(s, item);
        if pred(s.last()) {
            assert(t == tr.push(s.last()));
            assert forall|i: int, j: int| 0 <= i < j < t.len() implies (#[trigger] t[i]).at <= (
            #[trigger] t[j]).at && t[i].item != t[j].item by {
                if j < tr.len() {
                    assert(t[i] == tr[i] && t[j] == tr[j]);
                } else {
                    assert(t[i] == tr[i]);
                    assert(tr.contains(tr[i]));
                    let a = choose|a: int| 0 <= a < r.len() && r[a] == tr[i];
                    assert(s[a] == r[a]);
                    assert(s[a].at <= s[n].at);
                    assert(s[a].item != s[n].item);
                }
            }
        } else {
            assert(t == tr);
        }
        if !tracks(s, item) {
            assert(pred(s[n]));
            assert(!tracks(r, item)) by {
                if tracks(r, item) {
                    let i = choose|i: int| 0 <= i < r.len() && (#[trigger] r[i]).item == item;
                    assert(s[i] == r[i]);
                }
            }
            assert(t =~= s);
        }
        assert(!tracks(t, item)) by {
            if tracks(t, item) {
                let i = choose|i: int| 0 <= i < t.len() && (#[trigger] t[i]).item == item;
                assert(t.contains(t[i]));
            }
        }
        assert forall|other: Key| other != item implies (tracks(t, other) <==> tracks(
            s,
            other,
        )) by {
            if tracks(t, other) {
                let i = choose|i: int| 0 <= i < t.len() && (#[trigger] t[i]).item == other;
                assert(t.contains(t[i]));
                let a = choose|a: int| 0 <= a < s.len() && s[a] == t[i];
                assert(s[a].item == other);
            }
            if tracks(s, other) {
                let a = choose|a: int| 0 <= a < s.len() && (#[trigger] s[a]).item == other;
                assert(s.contains(s[a]));
                assert(t.contains(s[a]));
                let i = choose|i: int| 0 <= i < t.len() && t[i] == s[a];
                assert(t[i].item == other);
            }
        }
    }
}

/// How the filtered list grows with one more entry of `s`.
pub proof fn lemma_stopped_step(s: Seq<Deadline>, n: int, item: Key)
    requires
        0 <= n < s.len(),
    ensures
        stopped(s.take(n + 1), item) == if s[n].item != item {
            stopped(s.take(n), item).push(s[n])
        } else {
            stopped(s.take(n), item)
        },
{
    reveal(Seq::filter);
    assert(s.take(n + 1).drop_last() =~= s.take(n));
    assert(s.take(n + 1).last() == s[n]);
}

/// What the filtered list holds: the entries of `s` that are not for `item`.
pub proof fn lemma_filter_members(s: Seq<Deadline>, item: Key)
    ensures
        forall|e: Deadline| #[trigger]
            stopped(s, item).contains(e) <==> (s.contains(e) && e.item != item),
        stopped(s, item).len() <= s.len(),
    decreases s.len(),
{
    reveal(Seq::filter);
    let t = stopped(s, item);
    if s.len() > 0 {
        let r = s.drop_last();
        lemma_filter_members(r, item);
        let tr = stopped(r, item);
        assert forall|e: Deadline| #[trigger]
            t.contains(e) <==> (s.contains(e) && e.item != item) by {
            if t.contains(e) {
                let i = choose|i: int| 0 <= i < t.len() && t[i] == e;
                if i < tr.len() {
                    assert(tr[i] == e);
                    assert(tr.contains(e));
                    let a = choose|a: int| 0 <= a < r.len() && r[a] == e;
                    assert(s[a] == e);
                } else {
                    assert(s[s.len() - 1] == e);
                }
            }
            if s.contains(e) && e.item != item {
                let a = choose|a: int| 0 <= a < s.len() && s[a] == e;
                if a < r.len() {
                    assert(r[a] == e);
                    assert(r.contains(e));
                    assert(tr.contains(e));
                    let i = choose|i: int| 0 <= i < tr.len() && tr[i] == e;
                    assert(t[i] == e);
                } else {
                    assert(t[t.len() - 1] == e);
                }
            }
        }
    }
}

/// Entering a deadline keeps the list ordered and single, and the item is
/// then tracked once, with that deadline.
pub proof fn lemma_entered(s: Seq<Deadline>, e: Deadline)
    requires
        ordered(s),
        single(s),
    ensures
        ordered(entered(s, e)),
        single(entered(s, e)),
        entered(s, e)[due_count(stopped(s, e.item), e.at) as int] == e,
        tracks(entered(s, e), e.item),
        forall|other: Key| other != e.item ==> (tracks(entered(s, e), other) <==> tracks(s, other)),
{
    let rest = stopped(s, e.item);
    let p = due_count(rest, e.at) as int;
    let t = entered(s, e);
    lemma_stopped(s, e.item);
    lemma_due_count(rest, e.at);
    lemma_pending_not_due(rest, e.at);
    assert forall|i: int, j: int| 0 <= i < j < t.len() implies (#[trigger] t[i]).at <= (
    #[trigger] t[j]).at && t[i].item != t[j].item by {
        let a = if i < p { i } else { i - 1 };
        let b = if j < p { j } else { j - 1 };
        if i == p {
            assert(t[j] == rest[b]);
            assert(rest[b].item != e.item) by {
                if rest[b].item == e.item {
                    assert(tracks(rest, e.item));
                }
            }
        } else if j == p {
            assert(t[i] == rest[a]);
            assert(rest[a].item != e.item) by {
                if rest[a].item == e.item {
                    assert(tracks(rest, e.item));
                }
            }
        } else {
            assert(t[i] == rest[a] && t[j] == rest[b]);
        }
    }
    assert(t[p] == e);
    assert forall|other: Key| other != e.item implies (tracks(t, other) <==> tracks(s, other)) by {
        if tracks(t, other) {
            let i = choose|i: int| 0 <= i < t.len() && (#[trigger] t[i]).item == other;
            let a = if i < p { i } else { i - 1 };
            assert(t[i] == rest[a]);
            assert(tracks(rest, other));
        }
        if tracks(s, other) {
            assert(tracks(rest, other));
            let a = choose|a: int| 0 <= a < rest.len() && (#[trigger] rest[a]).item == other;
            let i = if a < p { a } else { a + 1 };
            assert(t[i] == rest[a]);
        }
    }
}

/// A part of an ordered, single list is ordered and single.
pub proof fn lemma_parts(s: Seq<Deadline>, k: int)
    requires
        ordered(s),
        single(s),
        0 <= k <= s.len(),
    ensures
        ordered(s.take(k)),
        single(s.take(k)),
        ordered(s.skip(k)),
        single(s.skip(k)),
{
    let a = s.take(k);
    let b = s.skip(k);
    assert forall|i: int, j: int| 0 <= i < j < a.len() implies (#[trigger] a[i]).at <= (
    #[trigger] a[j]).at && a[i].item != a[j].item by {
        assert(a[i] == s[i] && a[j] == s[j]);
    }
    assert forall|i: int, j: int| 0 <= i < j < b.len() implies (#[trigger] b[i]).at <= (
    #[trigger] b[j]).at && b[i].item != b[j].item by {
        assert(b[i] == s[i + k] && b[j] == s[j + k]);
    }
}

/// In a single list an item has one entry or none.
pub proof fn lemma_count_single(s: Seq<Deadline>, item: Key)
    requires
        single(s),
    ensures
        count_of(s, item) == if tracks(s, item) {
            1nat
        } else {
            0nat
        },
    decreases s.len(),
{
    if s.len() > 0 {
        let r = s.drop_last();
        let n = s.len() - 1;
        assert forall|i: int, j: int| 0 <= i < j < r.len() implies (#[trigger] r[i]).item != (
        #[trigger] r[j]).item by {
            assert(r[i] == s[i] && r[j] == s[j]);
        }
        lemma_count_single(r, item);
        if tracks(r, item) {
            let i = choose|i: int| 0 <= i < r.len() && (#[trigger] r[i]).item == item;
            assert(s[i] == r[i]);
            assert(s[i].item != s[n].item);
        }
        if s[n].item == item {
            assert(tracks(s, item));
        }
        if tracks(s, item) && s[n].item != item {
            let i = choose|i: int| 0 <= i < s.len() && (#[trigger] s[i]).item == item;
            assert(r[i] == s[i]);
        }
    }
}

/// A deadline that is stopped before its instant is never announced: asking
/// before the instant announces nothing for the item, and once the item is
/// stopped no later question does.
pub proof fn law_stopped_in_time_never_fires(
    s: Seq<Deadline>,
    e: Deadline,
    early: Timestamp,
    later: Timestamp,
)
    requires
        ordered(s),
        single(s),
        early < e.at,
    ensures
        count_of(fired(entered(s, e), early), e.item) == 0,
        tracks(pending(entered(s, e), early), e.item),
        count_of(fired(stopped(pending(entered(s, e), early), e.item), later), e.item) == 0,
        !tracks(pending(stopped(pending(entered(s, e), early), e.item), later), e.item),
{
    let t = entered(s, e);
    let p = due_count(stopped(s, e.item), e.at) as int;
    lemma_entered(s, e);
    lemma_stopped(s, e.item);
    lemma_due_count(stopped(s, e.item), e.at);
    assert(0 <= p < t.len() && t[p] == e);
    let k = due_count(t, early) as int;
    lemma_due_count(t, early);
    lemma_parts(t, k);
    let f = fired(t, early);
    let q = pending(t, early);
    assert(!tracks(f, e.item)) by {
        if tracks(f, e.item) {
            let i = choose|i: int| 0 <= i < f.len() && (#[trigger] f[i]).item == e.item;
            assert(f[i] == t[i]);
            assert(t[i].at <= early);
            if i < p {
                assert(t[i].item != t[p].item);
            } else if p < i {
                assert(t[p].item != t[i].item);
            }
        }
    }
    lemma_count_single(f, e.item);
    assert(p >= k) by {
        if p < k {
            assert(t[p].at <= early);
        }
    }
    assert(q[p - k] == t[p]);
    assert(tracks(q, e.item));
    let u = stopped(q, e.item);
    lemma_stopped(q, e.item);
    let m = due_count(u, later) as int;
    lemma_due_count(u, later);
    lemma_parts(u, m);
    let g = fired(u, later);
    assert(!tracks(g, e.item)) by {
        if tracks(g, e.item) {
            let i = choose|i: int| 0 <= i < g.len() && (#[trigger] g[i]).item == e.item;
            assert(g[i] == u[i]);
            assert(tracks(u, e.item));
        }
    }
    lemma_count_single(g, e.item);
    let h = pending(u, later);
    assert(!tracks(h, e.item)) by {
        if tracks(h, e.item) {
            let i = choose|i: int| 0 <= i < h.len() && (#[trigger] h[i]).item == e.item;
            assert(h[i] == u[i + m]);
            assert(tracks(u, e.item));
        }
    }
}

/// A deadline that nobody stops is announced exactly once: the first question
/// at or after its instant announces it, and it is then no longer watched.
pub proof fn law_unstopped_fires_once(s: Seq<Deadline>, e: Deadline, now: Timestamp)
    requires
        ordered(s),
        single(s),
        e.at <= now,
    ensures
        count_of(fired(entered(s, e), now), e.item) == 1,
        fired(entered(s, e), now).contains(e),
        !tracks(pending(entered(s, e), now), e.item),
{
    let t = entered(s, e);
    let p = due_count(stopped(s, e.item), e.at) as int;
    lemma_entered(s, e);
    lemma_stopped(s, e.item);
    lemma_due_count(stopped(s, e.item), e.at);
    assert(0 <= p < t.len() && t[p] == e);
    let k = due_count(t, now) as int;
    lemma_due_count(t, now);
    lemma_pending_not_due(t, now);
    lemma_parts(t, k);
    assert(p < k) by {
        if p >= k {
            assert(t[p].at > now);
        }
    }
    let f = fired(t, now);
    assert(f[p] == e);
    assert(tracks(f, e.item));
    lemma_count_single(f, e.item);
    let q = pending(t, now);
    assert(!tracks(q, e.item)) by {
        if tracks(q, e.item) {
            let i = choose|i: int| 0 <= i < q.len() && (#[trigger] q[i]).item == e.item;
            assert(q[i] == t[i + k]);
            assert(t[p].item != t[i + k].item);
        }
    }
}

/// The deadlines that are watched at present.
pub struct DeadlineChecker {
    entries: Vec<TrackDeadline>,
}

impl View for DeadlineChecker {
    type V = Seq<Deadline>;

    closed spec fn view(&self) -> Seq<Deadline> {
        self.entries@.map_values(|e: TrackDeadline| e@)
    }
}

impl DeadlineChecker {
    /// The entries are ordered by deadline and no item has two of them.
    pub open spec fn wf(&self) -> bool {
        ordered(self@) && single(self@)
    }

    /// A tracker that watches nothing.
    pub fn new() -> (c: Self)
        ensures
            c.wf(),
            c@ == Seq::<Deadline>::empty(),
    {
        let c = DeadlineChecker { entries: Vec::new() };
        assert(c@ =~= Seq::<Deadline>::empty());
        c
    }

    /// How many deadlines are watched.
    pub fn len(&self) -> (n: usize)
        ensures
            n == self@.len(),
    {
        self.entries.len()
    }

    /// Whether the item `id` is watched.
    pub fn is_tracked(&self, id: &str) -> (r: bool)
        ensures
            r == tracks(self@, id@),
    {
        let mut i: usize = 0;
        while i < self.entries.len()
            invariant
                i <= self.entries.len(),
                forall|j: int| 0 <= j < i ==> (#[trigger] self@[j]).item != id@,
            decreases self.entries.len() - i,
        {
            if same_text(self.entries[i].id.as_str(), id) {
                assert(self@[i as int].item == id@);
                return true;
            }
            i += 1;
        }
        false
    }

    /// The earliest deadline that is watched: the instant until which the
    /// caller may sleep.
    pub fn next_deadline(&self) -> (r: Option<Timestamp>)
        ensures
            r == if self@.len() == 0 {
                None
            } else {
                Some(self@[0].at)
            },
    {
        if self.entries.len() == 0 {
            None
        } else {
            Some(self.entries[0].deadline)
        }
    }

    /// Forgets the item of `msg`. Nothing happens where it is not watched.
    pub fn stop_tracking(&mut self, msg: &StopTracking)
        requires
            old(self).wf(),
        ensures
            final(self).wf(),
            final(self)@ == stopped(old(self)@, msg.id@),
    {
        let ghost s = self@;
        let ghost item = msg.id@;
        proof {
            lemma_stopped(s, item);
        }
        let mut i: usize = 0;
        while i < self.entries.len()
            invariant
                item == msg.id@,
                i <= self.entries.len(),
                self@.len() <= s.len(),
                self@.take(i as int) == stopped(s.take(i + (s.len() - self@.len())), item),
                self@.skip(i as int) == s.skip(i + (s.len() - self@.len())),
            decreases self.entries.len() - i,
        {
            let ghost cur = self@;
            let ghost d = s.len() - cur.len();
            proof {
                lemma_stopped_step(s, i + d, item);
                assert(cur[i as int] == cur.skip(i as int)[0]);
                assert(s[i + d] == s.skip(i + d)[0]);
            }
            if same_text(self.entries[i].id.as_str(), msg.id.as_str()) {
                self.entries.remove(i);
                proof {
                    assert(self@ =~= cur.remove(i as int));
                    assert(self@.take(i as int) =~= cur.take(i as int));
                    assert(self@.skip(i as int) =~= cur.skip(i + 1));
                    assert(cur.skip(i + 1) =~= cur.skip(i as int).skip(1));
                    assert(s.skip(i + d + 1) =~= s.skip(i + d).skip(1));
                }
            } else {
                proof {
                    assert(cur.take(i + 1) =~= cur.take(i as int).push(cur[i as int]));
                    assert(cur.skip(i + 1) =~= cur.skip(i as int).skip(1));
                    assert(s.skip(i + d + 1) =~= s.skip(i + d).skip(1));
                }
                i += 1;
            }
        }
        proof {
            assert(self@.take(i as int) =~= self@);
            assert(self@.skip(i as int).len() == 0);
            assert(s.take(s.len() as int) =~= s);
        }
    }

    /// Watches the deadline of `msg`. An older entry for the same item is
    /// replaced; among entries with the same deadline the new one is last.
    pub fn track(&mut self, msg: TrackDeadline)
        requires
            old(self).wf(),
        ensures
            final(self).wf(),
            final(self)@ == entered(old(self)@, msg@),
    {
        let ghost s = self@;
        proof {
            lemma_entered(s, msg@);
        }
        let stop = StopTracking { id: msg.id.clone() };
        self.stop_tracking(&stop);
        let ghost rest = self@;
        let mut p: usize = 0;
        assert(rest.skip(0) =~= rest);
        while p < self.entries.len() && self.entries[p].deadline <= msg.deadline
            invariant
                p <= self.entries.len(),
                self@ == rest,
                p + due_count(rest.skip(p as int), msg.deadline) == due_count(rest, msg.deadline),
            decreases self.entries.len() - p,
        {
            proof {
                assert(rest.skip(p as int)[0] == rest[p as int]);
                assert(rest.skip(p as int).drop_first() =~= rest.skip(p + 1));
            }
            p += 1;
        }
        proof {
            if p < rest.len() {
                assert(rest.skip(p as int)[0] == rest[p as int]);
            }
        }
        self.entries.insert(p, msg);
        assert(self@ =~= rest.insert(p as int, msg@));
    }

    /// Takes out the entries whose deadline is at or before `now` and returns
    /// a notice for each, earliest first, entries with one deadline in the
    /// order in which they were entered.
    pub fn elapsed(&mut self, now: Timestamp) -> (r: Vec<DeadlineElapsed>)
        requires
            old(self).wf(),
        ensures
            final(self).wf(),
            notices(r@) == fired(old(self)@, now),
            final(self)@ == pending(old(self)@, now),
            forall|i: int| 0 <= i < r@.len() ==> (#[trigger] r@[i]).deadline <= now,
            forall|i: int| 0 <= i < final(self)@.len() ==> (#[trigger] final(self)@[i]).at > now,
    {
        let ghost s = self@;
        proof {
            lemma_due_count(s, now);
            lemma_pending_not_due(s, now);
        }
        let mut out: Vec<DeadlineElapsed> = Vec::new();
        assert(notices(out@) =~= s.take(0));
        assert(self@ =~= s.skip(0));
        while self.entries.len() > 0 && self.entries[0].deadline <= now
            invariant
                out@.len() <= s.len(),
                notices(out@) == s.take(out@.len() as int),
                self@ == s.skip(out@.len() as int),
                out@.len() + due_count(self@, now) == due_count(s, now),
            decreases self.entries.len(),
        {
            let ghost cur = self@;
            let ghost done = out@;
            let e = self.entries.remove(0);
            proof {
                assert(self@ =~= cur.drop_first());
                assert(cur[0] == s[done.len() as int]);
                assert(e@ == cur[0]);
            }
            out.push(DeadlineElapsed { agreement_id: e.agreement_id, id: e.id, deadline: e.deadline });
            proof {
                assert(notices(out@) =~= notices(done).push(cur[0]));
                assert(s.take(done.len() as int + 1) =~= s.take(done.len() as int).push(
                    s[done.len() as int],
                ));
                assert(s.skip(done.len() as int + 1) =~= cur.drop_first());
            }
        }
        proof {
            let k = due_count(s, now) as int;
            assert(due_count(self@, now) == 0);
            assert(out@.len() == k);
            let f = self@;
            assert forall|i: int, j: int| 0 <= i < j < f.len() implies (#[trigger] f[i]).at <= (
            #[trigger] f[j]).at && f[i].item != f[j].item by {
                assert(f[i] == s[i + k] && f[j] == s[j + k]);
            }
            assert forall|i: int| 0 <= i < out@.len() implies (#[trigger] out@[i]).deadline
                <= now by {
                assert(notices(out@)[i] == s[i]);
            }
            assert forall|i: int| 0 <= i < f.len() implies (#[trigger] f[i]).at > now by {
                assert(f[i] == s[i + k]);
            }
        }
        out
    }
}

} // verus!
