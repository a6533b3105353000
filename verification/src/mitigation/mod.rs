//! Timed blocking of source addresses.
//!
//! Time is read from the monotonic clock as nanoseconds since the manager
//! was created. Every operation that consults the clock has a counterpart
//! ending in `_at` that takes the current time as an argument. The manager
//! keeps its latest clock reading (`spec_clock`), and readings never go
//! back, so the clock operations are stated over that reading.

pub mod enforcer;

pub use enforcer::FirewallEnforcer;

use std::time::Instant;
use vstd::prelude::*;
use crate::tables::{
    spec_keys_distinct, spec_lists_map, spec_entries_map, lemma_entries_map_lists,
    lemma_entries_map_push,
};
use crate::clock;

verus! {

/// Nanoseconds in a second.
pub const NANOS_PER_SEC: u128 = 1_000_000_000;

#[derive(Debug, Clone, Copy, PartialEq, Eq, Structural)]
pub enum MitigationAction {
    Block,
    Unblock,
}

/// A blocked source address and the time (nanoseconds since the manager's
/// clock origin) at which its block ends.
#[derive(Debug)]
pub struct BlockEntry {
    pub source_ip: String,
    pub expires_at: u128,
}

/// The (address, expiry) pairs of a list of block entries.
pub open spec fn spec_entry_pairs(v: Seq<BlockEntry>) -> Seq<(Seq<char>, u128)> {
    Seq::new(v.len(), |i: int| (v[i].source_ip@, v[i].expires_at))
}

/// The blocks of `m` that are still in force at `now`.
pub open spec fn spec_unexpired(m: Map<Seq<char>, u128>, now: u128) -> Map<Seq<char>, u128> {
    Map::new(|k: Seq<char>| m.contains_key(k) && m[k] > now, |k: Seq<char>| m[k])
}

/// When a block of `secs` seconds placed at `now` ends (the clock's
/// largest value if that lies beyond it).
pub open spec fn spec_expiry(now: u128, secs: u64) -> u128 {
    if now + secs * NANOS_PER_SEC > u128::MAX {
        u128::MAX
    } else {
        (now + secs * NANOS_PER_SEC) as u128
    }
}

/// The blocks after blocking `ip` at `now`: expired blocks are dropped,
/// and `ip` is added unless it is still blocked (its block is not renewed).
pub open spec fn spec_after_block(
    m: Map<Seq<char>, u128>,
    ip: Seq<char>,
    now: u128,
    secs: u64,
) -> Map<Seq<char>, u128> {
    let live = spec_unexpired(m, now);
    if live.contains_key(ip) {
        live
    } else {
        live.insert(ip, spec_expiry(now, secs))
    }
}

#[derive(Debug)]
pub struct MitigationManager {
    entries: Vec<BlockEntry>,
    block_duration_secs: u64,
    clock_origin: Instant,
    clock_reading: u128,
}

impl MitigationManager {
    /// Blocked addresses and when each block ends.
    pub closed spec fn spec_blocks(&self) -> Map<Seq<char>, u128> {
        spec_entries_map(spec_entry_pairs(self.entries@))
    }

    /// How long a new block lasts, in seconds.
    pub closed spec fn spec_block_duration_secs(&self) -> u64 {
        self.block_duration_secs
    }

    /// The latest time read from the clock, in nanoseconds since the
    /// manager was created (0 before the first reading). Readings never go
    /// back.
    pub closed spec fn spec_clock(&self) -> u128 {
        self.clock_reading
    }

    /// No address is listed twice.
    pub closed spec fn wf(&self) -> bool {
        spec_keys_distinct(spec_entry_pairs(self.entries@))
    }

    pub fn new(block_duration_secs: u64) -> (m: Self)
        ensures
            m.wf(),
            m.spec_blocks() == Map::<Seq<char>, u128>::empty(),
            m.spec_block_duration_secs() == block_duration_secs,
            m.spec_clock() == 0,
    {
        let m = MitigationManager {
            entries: Vec::new(),
            block_duration_secs,
            clock_origin: clock::instant_now(),
            clock_reading: 0,
        };
        assert(spec_entry_pairs(m.entries@) =~= Seq::<(Seq<char>, u128)>::empty());
        m
    }

    /// Reads the clock: nanoseconds since this manager's clock origin, never
    /// less than the previous reading, and records the reading. Nothing more
    /// is claimed of the value: it depends on the clock.
    fn now(&mut self) -> (t: u128)
        ensures
            t >= old(self).spec_clock(),
            final(self).spec_clock() == t,
            final(self).entries == old(self).entries,
            final(self).block_duration_secs == old(self).block_duration_secs,
    {
        let reading = clock::nanos_since(&self.clock_origin);
        let t = if reading < self.clock_reading {
            self.clock_reading
        } else {
            reading
        };
        self.clock_reading = t;
        t
    }

    /// Drops the blocks that have ended by `now`.
    pub fn remove_expired_at(&mut self, now: u128)
        requires
            old(self).wf(),
        ensures
            final(self).wf(),
            final(self).spec_block_duration_secs() == old(self).spec_block_duration_secs(),
            final(self).spec_clock() == old(self).spec_clock(),
            final(self).spec_blocks() == spec_unexpired(old(self).spec_blocks(), now),
    {
        let mut pending: Vec<BlockEntry> = Vec::new();
        std::mem::swap(&mut pending, &mut self.entries);
        let ghost orig = spec_entry_pairs(pending@);
        proof {
            lemma_entries_map_lists(orig);
        }
        let n = pending.len();
        let mut kept: Vec<BlockEntry> = Vec::new();
        let ghost mut src: Seq<int> = Seq::empty();
        let mut i: usize = 0;
        while i < n
            invariant
                n == orig.len(),
                i <= n,
                spec_keys_distinct(orig),
                spec_entry_pairs(pending@) == orig.skip(i as int),
                src.len() == kept@.len(),
                forall|t: int|
                    0 <= t < src.len() ==> 0 <= #[trigger] src[t] < i && spec_entry_pairs(
                        kept@,
                    )[t] == orig[src[t]] && orig[src[t]].1 > now,
                forall|s: int, t: int| 0 <= s < t < src.len() ==> src[s] < src[t],
                forall|j: int|
                    0 <= j < i && #[trigger] orig[j].1 > now ==> exists|t: int|
                        0 <= t < src.len() && src[t] == j,
            decreases n - i,
        {
            let ghost pre = pending@;
            assert(pre.len() == n - i) by {
                assert(spec_entry_pairs(pre).len() == pre.len());
            }
            assert(orig[i as int] == spec_entry_pairs(pre)[0]);
            let e = pending.remove(0);
            proof {
                assert forall|k: int| 0 <= k < pending@.len() implies #[trigger] spec_entry_pairs(
                    pending@,
                )[k] == orig.skip(i + 1)[k] by {
                    assert(pending@[k] == pre[k + 1]);
                    assert(spec_entry_pairs(pre)[k + 1] == orig.skip(i as int)[k + 1]);
                }
                assert(spec_entry_pairs(pending@) =~= orig.skip(i + 1));
                assert(orig[i as int] == (e.source_ip@, e.expires_at));
            }
            let ghost old_src = src;
            if e.expires_at > now {
                kept.push(e);
                proof {
                    src = src.push(i as int);
                }
            }
            proof {
                assert forall|j: int| 0 <= j < i + 1 && #[trigger] orig[j].1 > now implies exists|t: int|
                    0 <= t < src.len() && src[t] == j by {
                    if j == i {
                        assert(src[src.len() - 1] == j);
                    } else {
                        let t = choose|t: int| 0 <= t < old_src.len() && old_src[t] == j;
                        assert(src[t] == j);
                    }
                }
            }
            i = i + 1;
        }
        self.entries = kept;
        proof {
            let kv = spec_entry_pairs(self.entries@);
            assert forall|s: int, t: int| 0 <= s < t < kv.len() implies kv[s].0 != kv[t].0 by {
                assert(src[s] < src[t]);
            }
            lemma_entries_map_lists(kv);
            let mo = spec_entries_map(orig);
            let mk = spec_entries_map(kv);
            let target = spec_unexpired(mo, now);
            assert forall|k: Seq<char>| #[trigger] mk.contains_key(k) implies target.contains_key(k)
                && mk[k] == target[k] by {
                let t = choose|t: int| 0 <= t < kv.len() && kv[t].0 == k;
                assert(mo.contains_key(orig[src[t]].0));
            }
            assert forall|k: Seq<char>| #[trigger] target.contains_key(k) implies mk.contains_key(k) by {
                let j = choose|j: int| 0 <= j < orig.len() && orig[j].0 == k;
                assert(orig[j].1 > now);
                let t = choose|t: int| 0 <= t < src.len() && src[t] == j;
                assert(kv[t].0 == k);
            }
            assert(mk =~= target);
        }
    }

    /// Blocks `ip` at `now` for the configured duration, after dropping
    /// ended blocks; an address still blocked keeps its current block.
    pub fn block_ip_at(&mut self, source_ip: &str, now: u128) -> (a: MitigationAction)
        requires
            old(self).wf(),
        ensures
            final(self).wf(),
            final(self).spec_block_duration_secs() == old(self).spec_block_duration_secs(),
            final(self).spec_clock() == old(self).spec_clock(),
            final(self).spec_blocks() == spec_after_block(
                old(self).spec_blocks(),
                source_ip@,
                now,
                old(self).spec_block_duration_secs(),
            ),
            a == MitigationAction::Block,
    {
        self.remove_expired_at(now);
        let key = source_ip.to_owned();
        let ghost pairs = spec_entry_pairs(self.entries@);
        proof {
            lemma_entries_map_lists(pairs);
        }
        let i = find_entry(&self.entries, &key);
        if i < self.entries.len() {
            proof {
                assert(pairs[i as int].0 == key@);
            }
            return MitigationAction::Block;
        }
        let expires_at = expiry(now, self.block_duration_secs);
        self.entries.push(BlockEntry { source_ip: key, expires_at });
        proof {
            assert(spec_entry_pairs(self.entries@) =~= pairs.push((source_ip@, expires_at)));
            lemma_entries_map_push(pairs, (source_ip@, expires_at));
            assert(!spec_entries_map(pairs).contains_key(source_ip@)) by {
                if spec_entries_map(pairs).contains_key(source_ip@) {
                    let j = choose|j: int| 0 <= j < pairs.len() && pairs[j].0 == source_ip@;
                    assert(pairs[j].0 == self.entries@[j].source_ip@);
                }
            }
        }
        MitigationAction::Block
    }

    /// Whether `ip` is blocked at `now`, after dropping ended blocks.
    pub fn is_blocked_at(&mut self, source_ip: &str, now: u128) -> (b: bool)
        requires
            old(self).wf(),
        ensures
            final(self).wf(),
            final(self).spec_block_duration_secs() == old(self).spec_block_duration_secs(),
            final(self).spec_clock() == old(self).spec_clock(),
            final(self).spec_blocks() == spec_unexpired(old(self).spec_blocks(), now),
            b == final(self).spec_blocks().contains_key(source_ip@),
    {
        self.remove_expired_at(now);
        self.contains(source_ip)
    }

    /// How many addresses are blocked at `now`, after dropping ended blocks.
    pub fn blocked_count_at(&mut self, now: u128) -> (n: usize)
        requires
            old(self).wf(),
        ensures
            final(self).wf(),
            final(self).spec_block_duration_secs() == old(self).spec_block_duration_secs(),
            final(self).spec_clock() == old(self).spec_clock(),
            final(self).spec_blocks() == spec_unexpired(old(self).spec_blocks(), now),
            n == final(self).spec_blocks().dom().len(),
    {
        self.remove_expired_at(now);
        proof {
            lemma_entries_map_lists(spec_entry_pairs(self.entries@));
        }
        self.entries.len()
    }

    /// Whether `ip` is listed.
    fn contains(&self, source_ip: &str) -> (b: bool)
        requires
            self.wf(),
        ensures
            b == self.spec_blocks().contains_key(source_ip@),
    {
        let key = source_ip.to_owned();
        let ghost pairs = spec_entry_pairs(self.entries@);
        proof {
            lemma_entries_map_lists(pairs);
        }
        let i = find_entry(&self.entries, &key);
        proof {
            if i < self.entries@.len() {
                assert(pairs[i as int].0 == key@);
            } else if self.spec_blocks().contains_key(source_ip@) {
                let j = choose|j: int| 0 <= j < pairs.len() && pairs[j].0 == source_ip@;
                assert(pairs[j].0 == self.entries@[j].source_ip@);
            }
        }
        i < self.entries.len()
    }

    /// Lifts the block on `ip`, whether or not it has ended.
    pub fn unblock_ip(&mut self, source_ip: &str) -> (a: Option<MitigationAction>)
        requires
            old(self).wf(),
        ensures
            final(self).wf(),
            final(self).spec_block_duration_secs() == old(self).spec_block_duration_secs(),
            final(self).spec_clock() == old(self).spec_clock(),
            final(self).spec_blocks() == old(self).spec_blocks().remove(source_ip@),
            a == if old(self).spec_blocks().contains_key(source_ip@) {
                Some(MitigationAction::Unblock)
            } else {
                None
            },
    {
        let key = source_ip.to_owned();
        let ghost pairs = spec_entry_pairs(self.entries@);
        proof {
            lemma_entries_map_lists(pairs);
        }
        let i = find_entry(&self.entries, &key);
        if i < self.entries.len() {
            let removed = self.entries.remove(i);
            proof {
                let np = spec_entry_pairs(self.entries@);
                assert(np =~= pairs.remove(i as int));
                assert(spec_keys_distinct(np)) by {
                    assert forall|s: int, t: int| 0 <= s < t < np.len() implies np[s].0 != np[t].0 by {
                        let s2 = if s < i { s } else { s + 1 };
                        let t2 = if t < i { t } else { t + 1 };
                        assert(np[s] == pairs[s2]);
                        assert(np[t] == pairs[t2]);
                    }
                }
                lemma_entries_map_lists(np);
                let mo = spec_entries_map(pairs);
                let mn = spec_entries_map(np);
                let target = mo.remove(source_ip@);
                assert(pairs[i as int].0 == source_ip@);
                assert forall|k: Seq<char>| #[trigger] mn.contains_key(k) implies target.contains_key(k)
                    && mn[k] == target[k] by {
                    let t = choose|t: int| 0 <= t < np.len() && np[t].0 == k;
                    let t2 = if t < i { t } else { t + 1 };
                    assert(np[t] == pairs[t2]);
                    assert(mo.contains_key(pairs[t2].0));
                }
                assert forall|k: Seq<char>| #[trigger] target.contains_key(k) implies mn.contains_key(k) by {
                    let j = choose|j: int| 0 <= j < pairs.len() && pairs[j].0 == k;
                    assert(j != i);
                    let t = if j < i { j } else { j - 1 };
                    assert(np[t] == pairs[j]);
                }
                assert(mn =~= target);
            }
            Some(MitigationAction::Unblock)
        } else {
            proof {
                if spec_entries_map(pairs).contains_key(source_ip@) {
                    let j = choose|j: int| 0 <= j < pairs.len() && pairs[j].0 == source_ip@;
                    assert(pairs[j].0 == self.entries@[j].source_ip@);
                }
                assert(spec_entries_map(pairs).remove(source_ip@) =~= spec_entries_map(pairs));
            }
            None
        }
    }

    /// Whether a score (a binary64 pattern) reaches the threshold (another).
    pub fn should_mitigate(&self, anomaly_score: u64, threshold: u64) -> (b: bool)
        ensures
            b == crate::ieee754::spec_ge(anomaly_score, threshold),
    {
        crate::ieee754::ge(anomaly_score, threshold)
    }

    /// `block_ip_at` at the current time: the clock is read (never going
    /// back from the previous reading) and the block is placed at that
    /// reading.
    pub fn block_ip(&mut self, source_ip: &str) -> (a: MitigationAction)
        requires
            old(self).wf(),
        ensures
            final(self).wf(),
            final(self).spec_block_duration_secs() == old(self).spec_block_duration_secs(),
            old(self).spec_clock() <= final(self).spec_clock(),
            final(self).spec_blocks() == spec_after_block(
                old(self).spec_blocks(),
                source_ip@,
                final(self).spec_clock(),
                old(self).spec_block_duration_secs(),
            ),
            a == MitigationAction::Block,
    {
        let now = self.now();
        self.block_ip_at(source_ip, now)
    }

    /// `is_blocked_at` at the current time (a new clock reading, never
    /// going back from the previous one).
    pub fn is_blocked(&mut self, source_ip: &str) -> (b: bool)
        requires
            old(self).wf(),
        ensures
            final(self).wf(),
            final(self).spec_block_duration_secs() == old(self).spec_block_duration_secs(),
            old(self).spec_clock() <= final(self).spec_clock(),
            final(self).spec_blocks() == spec_unexpired(old(self).spec_blocks(), final(self).spec_clock()),
            b == final(self).spec_blocks().contains_key(source_ip@),
    {
        let now = self.now();
        self.is_blocked_at(source_ip, now)
    }

    /// `blocked_count_at` at the current time (a new clock reading, never
    /// going back from the previous one).
    pub fn blocked_count(&mut self) -> (n: usize)
        requires
            old(self).wf(),
        ensures
            final(self).wf(),
            final(self).spec_block_duration_secs() == old(self).spec_block_duration_secs(),
            old(self).spec_clock() <= final(self).spec_clock(),
            final(self).spec_blocks() == spec_unexpired(old(self).spec_blocks(), final(self).spec_clock()),
            n == final(self).spec_blocks().dom().len(),
    {
        let now = self.now();
        self.blocked_count_at(now)
    }

    /// `remove_expired_at` at the current time (a new clock reading, never
    /// going back from the previous one).
    pub fn remove_expired(&mut self)
        requires
            old(self).wf(),
        ensures
            final(self).wf(),
            final(self).spec_block_duration_secs() == old(self).spec_block_duration_secs(),
            old(self).spec_clock() <= final(self).spec_clock(),
            final(self).spec_blocks() == spec_unexpired(old(self).spec_blocks(), final(self).spec_clock()),
    {
        let now = self.now();
        self.remove_expired_at(now)
    }
}

/// When a block of `secs` seconds placed at `now` ends.
fn expiry(now: u128, secs: u64) -> (e: u128)
    ensures
        e == spec_expiry(now, secs),
{
    assert(secs * NANOS_PER_SEC <= u64::MAX * NANOS_PER_SEC) by (nonlinear_arith)
        requires
            secs <= u64::MAX,
    ;
    let span = secs as u128 * NANOS_PER_SEC;
    if now > u128::MAX - span {
        u128::MAX
    } else {
        now + span
    }
}

/// The position of `key` among the entries, or the number of entries when
/// absent.
fn find_entry(entries: &Vec<BlockEntry>, key: &String) -> (i: usize)
    ensures
        i <= entries@.len(),
        i < entries@.len() ==> entries@[i as int].source_ip@ == key@,
        forall|j: int| 0 <= j < i ==> entries@[j].source_ip@ != key@,
{
    let n = entries.len();
    let mut i: usize = 0;
    while i < n
        invariant
            n == entries@.len(),
            i <= n,
            forall|j: int| 0 <= j < i ==> entries@[j].source_ip@ != key@,
        decreases n - i,
    {
        if entries[i].source_ip == *key {
            return i;
        }
        i = i + 1;
    }
    n
}

/// The blocks in force at some time are finitely many when all blocks are.
pub proof fn lemma_unexpired_finite(m: Map<Seq<char>, u128>, now: u128)
    requires
        m.dom().finite(),
    ensures
        spec_unexpired(m, now).dom().finite(),
{
    let live = spec_unexpired(m, now);
    assert(live.dom() =~= m.dom().intersect(Set::new(|k: Seq<char>| m[k] > now)));
    vstd::set::axiom_set_intersect_finite(m.dom(), Set::new(|k: Seq<char>| m[k] > now));
}

/// An address blocked for a positive duration is blocked right after, at
/// the same instant (unless the clock is at its largest value).
pub proof fn lemma_block_takes_effect(m: Map<Seq<char>, u128>, ip: Seq<char>, now: u128, secs: u64)
    requires
        secs > 0,
        now < u128::MAX,
    ensures
        spec_unexpired(spec_after_block(m, ip, now, secs), now).contains_key(ip),
{
}

/// Once blocked at `now`, an address stays blocked at every later time
/// before its block ends, and is released from then on.
pub proof fn lemma_block_lasts_until_expiry(
    m: Map<Seq<char>, u128>,
    ip: Seq<char>,
    now: u128,
    secs: u64,
    later: u128,
)
    requires
        now <= later,
    ensures
        spec_after_block(m, ip, now, secs).contains_key(ip),
        spec_unexpired(spec_after_block(m, ip, now, secs), later).contains_key(ip) == (
        spec_after_block(m, ip, now, secs)[ip] > later),
{
}

/// Blocking an address twice at the same time is the same as blocking it
/// once.
pub proof fn lemma_block_idempotent(m: Map<Seq<char>, u128>, ip: Seq<char>, now: u128, secs: u64)
    ensures
        spec_after_block(spec_after_block(m, ip, now, secs), ip, now, secs) == spec_after_block(
            m,
            ip,
            now,
            secs,
        ),
{
    let live = spec_unexpired(m, now);
    let once = spec_after_block(m, ip, now, secs);
    if live.contains_key(ip) {
        assert(spec_unexpired(once, now) =~= once);
    } else if spec_expiry(now, secs) > now {
        assert(spec_unexpired(once, now) =~= once);
    } else {
        assert(spec_unexpired(once, now) =~= live);
    }
}

/// Blocking one address changes nothing for the others except dropping
/// ended blocks.
pub proof fn lemma_block_leaves_others(
    m: Map<Seq<char>, u128>,
    ip: Seq<char>,
    other: Seq<char>,
    now: u128,
    secs: u64,
)
    requires
        ip != other,
    ensures
        spec_after_block(m, ip, now, secs).contains_key(other) == spec_unexpired(m, now).contains_key(
            other,
        ),
{
}

/// Blocking an address that is not blocked adds exactly one block; blocking
/// one that is adds none.
pub proof fn lemma_block_count(m: Map<Seq<char>, u128>, ip: Seq<char>, now: u128, secs: u64)
    requires
        m.dom().finite(),
    ensures
        spec_after_block(m, ip, now, secs).dom().finite(),
        spec_after_block(m, ip, now, secs).dom().len() == spec_unexpired(m, now).dom().len() + if spec_unexpired(
            m,
            now,
        ).contains_key(ip) {
            0int
        } else {
            1int
        },
{
    lemma_unexpired_finite(m, now);
}

/// Blocked through the clock and then asked through the clock, an address
/// is blocked exactly while the later reading lies before the end of its
/// block; an address that was not blocked at the blocking reading gets a
/// block of the full duration from that reading. The premises are what
/// `block_ip` and then `is_blocked` (or `blocked_count`, `remove_expired`)
/// ensure.
pub proof fn lemma_clock_block_then_ask(
    before: MitigationManager,
    blocked: MitigationManager,
    asked: MitigationManager,
    ip: Seq<char>,
)
    requires
        before.spec_clock() <= blocked.spec_clock(),
        blocked.spec_blocks() == spec_after_block(
            before.spec_blocks(),
            ip,
            blocked.spec_clock(),
            before.spec_block_duration_secs(),
        ),
        blocked.spec_clock() <= asked.spec_clock(),
        asked.spec_blocks() == spec_unexpired(blocked.spec_blocks(), asked.spec_clock()),
    ensures
        blocked.spec_blocks().contains_key(ip),
        asked.spec_blocks().contains_key(ip) == (asked.spec_clock() < blocked.spec_blocks()[ip]),
        !spec_unexpired(before.spec_blocks(), blocked.spec_clock()).contains_key(ip) ==> (
        asked.spec_blocks().contains_key(ip) == (asked.spec_clock() < spec_expiry(
            blocked.spec_clock(),
            before.spec_block_duration_secs(),
        ))),
{
    lemma_block_lasts_until_expiry(
        before.spec_blocks(),
        ip,
        blocked.spec_clock(),
        before.spec_block_duration_secs(),
        asked.spec_clock(),
    );
}

/// A lifted block is gone at every time.
pub proof fn lemma_unblock_releases(m: Map<Seq<char>, u128>, ip: Seq<char>, now: u128)
    ensures
        !spec_unexpired(m.remove(ip), now).contains_key(ip),
{
}

/// The blocks that a manager lists are finitely many.
pub proof fn lemma_blocks_finite(manager: &MitigationManager)
    requires
        manager.wf(),
    ensures
        manager.spec_blocks().dom().finite(),
{
    lemma_entries_map_lists(spec_entry_pairs(manager.entries@));
}

} // verus!
