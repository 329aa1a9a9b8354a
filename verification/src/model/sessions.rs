//! Sessions kept under a key, each with the time of its last use.
//!
//! Times are nanoseconds on a clock that never runs backwards.

use crate::text::same;
use vstd::prelude::*;

verus! {

/// For how long a connection stays usable.
pub const SOCKET_SESSION_TTL: u64 = 3_600_000_000_000;

/// For how long a session that lost its connection goes without one.
pub const SOCKET_FALLBACK_TTL: u64 = 300_000_000_000;

/// How many connections are kept.
pub const MAX_SOCKET_SESSIONS: usize = 64;

/// What is kept under a key.
#[derive(Debug)]
pub struct TimedEntry<S> {
    pub key: String,
    pub used: u64,
    pub value: S,
}

/// Whether no key occurs twice.
pub open spec fn distinct<S>(entries: Seq<TimedEntry<S>>) -> bool {
    forall|i: int, j: int|
        0 <= i < j < entries.len() ==> (#[trigger] entries[i]).key@ != (#[trigger] entries[j]).key@
}

/// Whether an entry was used less than a time ago.
pub open spec fn is_fresh<S>(entry: TimedEntry<S>, now: u64, ttl: u64) -> bool {
    now - entry.used < ttl
}

/// The entries used less than a time ago, in their order.
pub open spec fn fresh<S>(entries: Seq<TimedEntry<S>>, now: u64, ttl: u64) -> Seq<TimedEntry<S>>
    decreases entries.len(),
{
    if entries.len() == 0 {
        Seq::empty()
    } else {
        let rest = fresh(entries.drop_first(), now, ttl);
        if is_fresh(entries[0], now, ttl) {
            seq![entries[0]] + rest
        } else {
            rest
        }
    }
}

/// The place of a key, the number of entries where it has none.
pub open spec fn place<S>(entries: Seq<TimedEntry<S>>, key: Seq<char>) -> int
    decreases entries.len(),
{
    if entries.len() == 0 {
        0
    } else if entries[0].key@ == key {
        0
    } else {
        1 + place(entries.drop_first(), key)
    }
}

/// The entries without that of a key.
pub open spec fn removed<S>(entries: Seq<TimedEntry<S>>, key: Seq<char>) -> Seq<TimedEntry<S>> {
    let at = place(entries, key);
    if at < entries.len() {
        entries.remove(at)
    } else {
        entries
    }
}

/// The value under a key.
pub open spec fn found<S>(entries: Seq<TimedEntry<S>>, key: Seq<char>) -> Option<S> {
    let at = place(entries, key);
    if at < entries.len() {
        Some(entries[at].value)
    } else {
        None
    }
}

/// The place of the entry that was used longest ago, the first where there are several.
pub open spec fn oldest<S>(entries: Seq<TimedEntry<S>>) -> int
    decreases entries.len(),
{
    if entries.len() <= 1 {
        0
    } else {
        let before = oldest(entries.drop_last());
        if entries.last().used < entries[before].used {
            entries.len() - 1
        } else {
            before
        }
    }
}

/// The entries with room for one more.
pub open spec fn roomy<S>(entries: Seq<TimedEntry<S>>, limit: nat) -> Seq<TimedEntry<S>> {
    if entries.len() >= limit && entries.len() > 0 {
        entries.remove(oldest(entries))
    } else {
        entries
    }
}

/// A key's place is its first.
pub proof fn lemma_place<S>(entries: Seq<TimedEntry<S>>, key: Seq<char>)
    ensures
        0 <= place(entries, key) <= entries.len(),
        forall|i: int| 0 <= i < place(entries, key) ==> (#[trigger] entries[i]).key@ != key,
        place(entries, key) < entries.len() ==> entries[place(entries, key)].key@ == key,
    decreases entries.len(),
{
    if entries.len() > 0 && entries[0].key@ != key {
        let rest = entries.drop_first();
        lemma_place(rest, key);
        assert forall|i: int| 0 <= i < place(entries, key) implies (#[trigger] entries[i]).key@
            != key by {
            if i > 0 {
                assert(rest[i - 1] == entries[i]);
            }
        }
    }
}

/// The place of a key that stands at an index and nowhere before.
proof fn lemma_place_is<S>(entries: Seq<TimedEntry<S>>, key: Seq<char>, at: int)
    requires
        0 <= at <= entries.len(),
        forall|i: int| 0 <= i < at ==> (#[trigger] entries[i]).key@ != key,
        at < entries.len() ==> entries[at].key@ == key,
    ensures
        place(entries, key) == at,
    decreases entries.len(),
{
    if at > 0 {
        let rest = entries.drop_first();
        assert forall|i: int| 0 <= i < at - 1 implies (#[trigger] rest[i]).key@ != key by {
            assert(rest[i] == entries[i + 1]);
        }
        assert(entries[0].key@ != key);
        lemma_place_is(rest, key, at - 1);
    }
}

/// The oldest entry stands among the entries, and none was used before it.
pub proof fn lemma_oldest<S>(entries: Seq<TimedEntry<S>>)
    requires
        entries.len() > 0,
    ensures
        0 <= oldest(entries) < entries.len(),
        forall|i: int|
            0 <= i < entries.len() ==> entries[oldest(entries)].used <= (
            #[trigger] entries[i]).used,
    decreases entries.len(),
{
    if entries.len() > 1 {
        let before = entries.drop_last();
        lemma_oldest(before);
        assert forall|i: int| 0 <= i < entries.len() implies entries[oldest(entries)].used <= (
        #[trigger] entries[i]).used by {
            if i < before.len() {
                assert(before[i] == entries[i]);
            }
        }
    }
}

/// The fresh entries are some of the entries, in their order.
pub proof fn lemma_fresh<S>(entries: Seq<TimedEntry<S>>, now: u64, ttl: u64)
    ensures
        fresh(entries, now, ttl).len() <= entries.len(),
        forall|i: int|
            0 <= i < fresh(entries, now, ttl).len() ==> entries.contains(
                #[trigger] fresh(entries, now, ttl)[i],
            ) && is_fresh(fresh(entries, now, ttl)[i], now, ttl),
        distinct(entries) ==> distinct(fresh(entries, now, ttl)),
    decreases entries.len(),
{
    if entries.len() > 0 {
        let rest = entries.drop_first();
        let r = fresh(rest, now, ttl);
        let all = fresh(entries, now, ttl);
        lemma_fresh(rest, now, ttl);
        assert forall|x: TimedEntry<S>| rest.contains(x) implies entries.contains(x) by {
            let k = choose|k: int| 0 <= k < rest.len() && rest[k] == x;
            assert(entries[k + 1] == x);
        }
        assert forall|i: int| 0 <= i < all.len() implies entries.contains(#[trigger] all[i])
            && is_fresh(all[i], now, ttl) by {
            if is_fresh(entries[0], now, ttl) {
                if i == 0 {
                    assert(entries.contains(entries[0]));
                } else {
                    assert(all[i] == r[i - 1]);
                }
            } else {
                assert(all[i] == r[i]);
            }
        }
        if distinct(entries) {
            assert forall|i: int, j: int| 0 <= i < j < rest.len() implies (
            #[trigger] rest[i]).key@ != (#[trigger] rest[j]).key@ by {
                assert(rest[i] == entries[i + 1] && rest[j] == entries[j + 1]);
            }
            assert forall|i: int, j: int| 0 <= i < j < all.len() implies (#[trigger] all[i]).key@
                != (#[trigger] all[j]).key@ by {
                if is_fresh(entries[0], now, ttl) {
                    assert(all[j] == r[j - 1]);
                    if i == 0 {
                        let k = choose|k: int| 0 <= k < rest.len() && rest[k] == r[j - 1];
                        assert(rest.contains(r[j - 1]));
                        assert(entries[k + 1] == r[j - 1]);
                        assert(entries[0].key@ != entries[k + 1].key@);
                    } else {
                        assert(all[i] == r[i - 1]);
                    }
                } else {
                    assert(all[i] == r[i] && all[j] == r[j]);
                }
            }
        }
    }
}

/// Taking entries out leaves no key twice.
proof fn lemma_remove_distinct<S>(entries: Seq<TimedEntry<S>>, at: int)
    requires
        distinct(entries),
        0 <= at < entries.len(),
    ensures
        distinct(entries.remove(at)),
        forall|i: int|
            0 <= i < entries.len() - 1 ==> (#[trigger] entries.remove(at)[i]).key@
                != entries[at].key@,
{
    let left = entries.remove(at);
    assert forall|i: int, j: int| 0 <= i < j < left.len() implies (#[trigger] left[i]).key@ != (
    #[trigger] left[j]).key@ by {
        let a = if i < at {
            i
        } else {
            i + 1
        };
        let b = if j < at {
            j
        } else {
            j + 1
        };
        assert(left[i] == entries[a] && left[j] == entries[b]);
    }
    assert forall|i: int| 0 <= i < entries.len() - 1 implies (#[trigger] left[i]).key@
        != entries[at].key@ by {
        if i < at {
            assert(left[i] == entries[i]);
        } else {
            assert(left[i] == entries[i + 1]);
        }
    }
}

/// Sessions by key.
#[derive(Debug)]
pub struct TimedTable<S> {
    pub entries: Vec<TimedEntry<S>>,
}

impl<S> TimedTable<S> {
    /// Whether no key occurs twice.
    pub open spec fn wf(self) -> bool {
        distinct(self.entries@)
    }

    pub fn new() -> (r: Self)
        ensures
            r.wf(),
            r.entries@ == Seq::<TimedEntry<S>>::empty(),
    {
        TimedTable { entries: Vec::new() }
    }

    fn find(&self, key: &str) -> (r: usize)
        ensures
            r == place(self.entries@, key@),
            r <= self.entries@.len(),
    {
        let mut i: usize = 0;
        while i < self.entries.len()
            invariant
                i <= self.entries@.len(),
                forall|k: int| 0 <= k < i ==> (#[trigger] self.entries@[k]).key@ != key@,
            decreases self.entries@.len() - i,
        {
            if same(self.entries[i].key.as_str(), key) {
                proof {
                    lemma_place_is(self.entries@, key@, i as int);
                }
                return i;
            }
            i = i + 1;
        }
        proof {
            lemma_place_is(self.entries@, key@, i as int);
        }
        i
    }

    /// Whether a key has an entry.
    pub fn contains(&self, key: &str) -> (r: bool)
        ensures
            r == found(self.entries@, key@).is_some(),
    {
        self.find(key) < self.entries.len()
    }

    /// Drops the entries that were last used too long ago.
    pub fn expire(&mut self, now: u64, ttl: u64)
        requires
            old(self).wf(),
        ensures
            final(self).wf(),
            final(self).entries@ == fresh(old(self).entries@, now, ttl),
    {
        let ghost all = self.entries@;
        let mut i: usize = 0;
        assert(self.entries@.skip(0) =~= all);
        assert(fresh(all, now, ttl) =~= self.entries@.take(0) + fresh(
            self.entries@.skip(0),
            now,
            ttl,
        ));
        while i < self.entries.len()
            invariant
                i <= self.entries@.len(),
                fresh(all, now, ttl) == self.entries@.take(i as int) + fresh(
                    self.entries@.skip(i as int),
                    now,
                    ttl,
                ),
            decreases self.entries@.len() - i,
        {
            let ghost rest = self.entries@.skip(i as int);
            let ghost here = self.entries@;
            let used = self.entries[i].used;
            let stale = now >= used && now - used >= ttl;
            assert(rest[0] == here[i as int]);
            if stale {
                self.entries.remove(i);
                assert(self.entries@.skip(i as int) =~= rest.drop_first());
                assert(self.entries@.take(i as int) =~= here.take(i as int));
            } else {
                assert(here.skip(i + 1) =~= rest.drop_first());
                assert(here.take(i as int) + (seq![rest[0]] + fresh(rest.drop_first(), now, ttl))
                    =~= here.take(i + 1) + fresh(here.skip(i + 1), now, ttl));
                i = i + 1;
            }
        }
        assert(self.entries@.skip(i as int) =~= Seq::<TimedEntry<S>>::empty());
        assert(self.entries@.take(i as int) =~= self.entries@);
        assert(self.entries@ + Seq::<TimedEntry<S>>::empty() =~= self.entries@);
        proof {
            lemma_fresh(all, now, ttl);
        }
    }

    /// Takes out the entry of a key.
    pub fn take(&mut self, key: &str) -> (r: Option<S>)
        requires
            old(self).wf(),
        ensures
            final(self).wf(),
            final(self).entries@ == removed(old(self).entries@, key@),
            r == found(old(self).entries@, key@),
    {
        let at = self.find(key);
        if at < self.entries.len() {
            proof {
                lemma_remove_distinct(self.entries@, at as int);
            }
            let entry = self.entries.remove(at);
            Some(entry.value)
        } else {
            None
        }
    }

    /// Takes out the entry that was used longest ago, where the table is full.
    pub fn make_room(&mut self, limit: usize)
        requires
            old(self).wf(),
        ensures
            final(self).wf(),
            final(self).entries@ == roomy(old(self).entries@, limit as nat),
    {
        if self.entries.len() >= limit && self.entries.len() > 0 {
            let mut best: usize = 0;
            let mut i: usize = 1;
            while i < self.entries.len()
                invariant
                    1 <= i <= self.entries@.len(),
                    best < i,
                    best == oldest(self.entries@.take(i as int)),
                decreases self.entries@.len() - i,
            {
                assert(self.entries@.take(i + 1).drop_last() =~= self.entries@.take(i as int));
                if self.entries[i].used < self.entries[best].used {
                    best = i;
                }
                i = i + 1;
            }
            assert(self.entries@.take(i as int) =~= self.entries@);
            proof {
                lemma_remove_distinct(self.entries@, best as int);
            }
            self.entries.remove(best);
        }
    }

    /// Puts a value under a key, in place of what stood there.
    pub fn insert(&mut self, key: String, used: u64, value: S)
        requires
            old(self).wf(),
        ensures
            final(self).wf(),
            final(self).entries@ == removed(old(self).entries@, key@).push(
                (TimedEntry { key, used, value }),
            ),
    {
        let at = self.find(key.as_str());
        proof {
            lemma_place(self.entries@, key@);
        }
        if at < self.entries.len() {
            proof {
                lemma_remove_distinct(self.entries@, at as int);
            }
            self.entries.remove(at);
        }
        self.entries.push(TimedEntry { key, used, value });
    }
}

/// The connections once one more is kept: none too old, no more than there may be.
pub open spec fn stored<S>(
    entries: Seq<TimedEntry<S>>,
    entry: TimedEntry<S>,
    now: u64,
) -> Seq<TimedEntry<S>> {
    removed(roomy(fresh(entries, now, SOCKET_SESSION_TTL), MAX_SOCKET_SESSIONS as nat), entry.key@).push(
        entry,
    )
}

/// Keeps a connection for the next request of its session.
pub fn store_session<S>(sessions: &mut TimedTable<S>, key: String, value: S, now: u64)
    requires
        old(sessions).wf(),
    ensures
        final(sessions).wf(),
        final(sessions).entries@ == stored(
            old(sessions).entries@,
            TimedEntry { key, used: now, value },
            now,
        ),
{
    sessions.expire(now, SOCKET_SESSION_TTL);
    sessions.make_room(MAX_SOCKET_SESSIONS);
    sessions.insert(key, now, value);
}

/// Whether a session lost its connection so recently that it goes without one. Forgets those that
/// lost theirs longer ago.
pub fn uses_fallback(fallbacks: &mut TimedTable<()>, key: &str, now: u64) -> (r: bool)
    requires
        old(fallbacks).wf(),
    ensures
        final(fallbacks).wf(),
        final(fallbacks).entries@ == fresh(old(fallbacks).entries@, now, SOCKET_FALLBACK_TTL),
        r == found(fresh(old(fallbacks).entries@, now, SOCKET_FALLBACK_TTL), key@).is_some(),
{
    fallbacks.expire(now, SOCKET_FALLBACK_TTL);
    fallbacks.contains(key)
}

/// However many connections are stored, no more are kept than there may be.
pub proof fn law_sessions_are_bounded<S>(
    entries: Seq<TimedEntry<S>>,
    entry: TimedEntry<S>,
    now: u64,
)
    requires
        entries.len() <= MAX_SOCKET_SESSIONS,
    ensures
        stored(entries, entry, now).len() <= MAX_SOCKET_SESSIONS,
{
    let kept = fresh(entries, now, SOCKET_SESSION_TTL);
    lemma_fresh(entries, now, SOCKET_SESSION_TTL);
    if kept.len() > 0 {
        lemma_oldest(kept);
    }
    lemma_place(roomy(kept, MAX_SOCKET_SESSIONS as nat), entry.key@);
}

/// A connection that was stored is the one found for its session.
pub proof fn law_stored_session_is_found<S>(
    entries: Seq<TimedEntry<S>>,
    entry: TimedEntry<S>,
    now: u64,
)
    requires
        distinct(entries),
    ensures
        found(stored(entries, entry, now), entry.key@) == Some(entry.value),
{
    let kept = fresh(entries, now, SOCKET_SESSION_TTL);
    lemma_fresh(entries, now, SOCKET_SESSION_TTL);
    let room = roomy(kept, MAX_SOCKET_SESSIONS as nat);
    if kept.len() > 0 {
        lemma_oldest(kept);
        if kept.len() >= MAX_SOCKET_SESSIONS {
            lemma_remove_distinct(kept, oldest(kept));
        }
    }
    lemma_place(room, entry.key@);
    let left = removed(room, entry.key@);
    if place(room, entry.key@) < room.len() {
        lemma_remove_distinct(room, place(room, entry.key@));
    }
    let all = stored(entries, entry, now);
    assert forall|i: int| 0 <= i < left.len() implies (#[trigger] all[i]).key@ != entry.key@ by {
        assert(all[i] == left[i]);
    }
    lemma_place_is(all, entry.key@, left.len() as int);
}

/// A connection that was taken is no longer found, and every other still is.
pub proof fn law_taken_session_is_gone<S>(
    entries: Seq<TimedEntry<S>>,
    key: Seq<char>,
    other: Seq<char>,
)
    requires
        distinct(entries),
    ensures
        found(removed(entries, key), key).is_none(),
        other != key ==> found(removed(entries, key), other) == found(entries, other),
{
    lemma_place(entries, key);
    lemma_place(entries, other);
    let at = place(entries, key);
    let left = removed(entries, key);
    if at < entries.len() {
        lemma_remove_distinct(entries, at);
        lemma_place_is(left, key, left.len() as int);
        if other != key {
            let there = place(entries, other);
            let shifted = if there <= at {
                there
            } else {
                there - 1
            };
            assert forall|i: int| 0 <= i < shifted implies (#[trigger] left[i]).key@ != other by {
                if i < at {
                    assert(left[i] == entries[i]);
                } else {
                    assert(left[i] == entries[i + 1]);
                }
            }
            lemma_place_is(left, other, shifted);
        }
    }
}

} // verus!
