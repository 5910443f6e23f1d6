//! The registry of per-channel queues: a shared map from channel key
//! `(team_id, channel_id)` to that channel's independently locked queue,
//! creating queues lazily on first access.
//!
//! The map itself sits behind one reader-writer lock, so lookups of
//! already-known keys run concurrently and only the insertion of a fresh
//! key takes the map exclusively. Each queue sits behind its own lock, so
//! traffic on different channels never serializes: a write operation on one
//! channel's queue blocks only that channel's readers and writers. Both
//! locks are vstd's verified reader-writer lock: a writer withdraws the
//! whole value and deposits the whole updated value back, so no reader can
//! ever observe a partially applied mutation, and every value deposited
//! must satisfy the lock's predicate.

use std::sync::Arc;

use vstd::prelude::*;
use vstd::rwlock::{RwLock, RwLockPredicate};

use crate::token::Token;

verus! {

/// The predicate every queue stored in a channel's lock must satisfy: its
/// member identifiers are pairwise distinct.
pub struct TokenPred {}

impl RwLockPredicate<Token> for TokenPred {
    open spec fn inv(self, v: Token) -> bool {
        v.wf()
    }
}

/// A shared handle to one channel's independently locked queue.
pub type TokenRef = Arc<RwLock<Token, TokenPred>>;

/// One registry entry: a channel key and the queue created for it.
pub struct ChannelEntry {
    pub team_id: String,
    pub channel_id: String,
    pub token: TokenRef,
}

/// Whether entry `e` carries the channel key `(team, channel)`.
pub open spec fn entry_has_key(e: ChannelEntry, team: Seq<char>, channel: Seq<char>) -> bool {
    e.team_id@ == team && e.channel_id@ == channel
}

/// Whether some entry of `s` carries the channel key `(team, channel)`.
pub open spec fn has_key(s: Seq<ChannelEntry>, team: Seq<char>, channel: Seq<char>) -> bool {
    exists|i: int| 0 <= i < s.len() && entry_has_key(s[i], team, channel)
}

/// The position of the entry carrying `(team, channel)`; meaningful only
/// when `has_key` holds (and unambiguous when `entries_wf` holds).
pub open spec fn index_of_key(s: Seq<ChannelEntry>, team: Seq<char>, channel: Seq<char>) -> int {
    choose|i: int| 0 <= i < s.len() && entry_has_key(s[i], team, channel)
}

/// The map's invariant: channel keys are pairwise distinct, so at most one
/// queue ever exists per key.
pub open spec fn entries_wf(s: Seq<ChannelEntry>) -> bool {
    forall|i: int, j: int|
        0 <= i < j < s.len() ==> !(s[i].team_id@ == s[j].team_id@ && s[i].channel_id@
            == s[j].channel_id@)
}

/// The queue registered for `(team, channel)`, if any.
pub open spec fn lookup(s: Seq<ChannelEntry>, team: Seq<char>, channel: Seq<char>) -> Option<
    TokenRef,
> {
    if has_key(s, team, channel) {
        Some(s[index_of_key(s, team, channel)].token)
    } else {
        None
    }
}

/// Distinct entries of a duplicate-free registry carry distinct channel
/// keys, so any two positions carrying the same key coincide: at most one
/// queue exists per key.
pub proof fn lemma_key_unique(s: Seq<ChannelEntry>, i: int, j: int)
    requires
        entries_wf(s),
        0 <= i < s.len(),
        0 <= j < s.len(),
        s[i].team_id@ == s[j].team_id@,
        s[i].channel_id@ == s[j].channel_id@,
    ensures
        i == j,
{
    if i < j {
        assert(!(s[i].team_id@ == s[j].team_id@ && s[i].channel_id@ == s[j].channel_id@));
    }
    if j < i {
        assert(!(s[j].team_id@ == s[i].team_id@ && s[j].channel_id@ == s[i].channel_id@));
    }
}

/// Registering a fresh key keeps channel keys pairwise distinct.
pub proof fn lemma_entries_wf_push(s: Seq<ChannelEntry>, e: ChannelEntry)
    requires
        entries_wf(s),
        !has_key(s, e.team_id@, e.channel_id@),
    ensures
        entries_wf(s.push(e)),
{
    let t = s.push(e);
    assert forall|i: int, j: int| 0 <= i < j < t.len() implies !(t[i].team_id@ == t[j].team_id@
        && t[i].channel_id@ == t[j].channel_id@) by {
        if j < s.len() {
            assert(t[i] == s[i]);
            assert(t[j] == s[j]);
        } else {
            assert(t[i] == s[i]);
            assert(t[j] == e);
            assert(!entry_has_key(s[i], e.team_id@, e.channel_id@));
        }
    }
}

/// Cross-channel isolation at the map level: registering a queue for a
/// fresh key leaves the lookup of every other key exactly as it was.
pub proof fn lemma_lookup_push_other_keys(
    s: Seq<ChannelEntry>,
    e: ChannelEntry,
    team: Seq<char>,
    channel: Seq<char>,
)
    requires
        entries_wf(s),
        !has_key(s, e.team_id@, e.channel_id@),
        !(team == e.team_id@ && channel == e.channel_id@),
    ensures
        lookup(s.push(e), team, channel) == lookup(s, team, channel),
{
    let t = s.push(e);
    if has_key(s, team, channel) {
        let i = index_of_key(s, team, channel);
        assert(entry_has_key(s[i], team, channel));
        assert(t[i] == s[i]);
        assert(entry_has_key(t[i], team, channel));
        assert(has_key(t, team, channel));
        let j = index_of_key(t, team, channel);
        assert(entry_has_key(t[j], team, channel));
        if j == s.len() {
            assert(t[j] == e);
            assert(false);
        }
        assert(t[j] == s[j]);
        lemma_key_unique(s, i, j);
    } else {
        if has_key(t, team, channel) {
            let j = index_of_key(t, team, channel);
            assert(entry_has_key(t[j], team, channel));
            if j < s.len() {
                assert(t[j] == s[j]);
                assert(has_key(s, team, channel));
            } else {
                assert(t[j] == e);
            }
            assert(false);
        }
    }
}

/// The predicate the registry's map lock imposes on the key→queue map:
/// channel keys stay pairwise distinct under every interleaving of
/// accesses, so concurrent first accesses to an unseen key can never
/// register two queues for it.
pub struct MapPred {}

impl RwLockPredicate<Vec<ChannelEntry>> for MapPred {
    open spec fn inv(self, v: Vec<ChannelEntry>) -> bool {
        entries_wf(v@)
    }
}

/// The registry: one queue per channel key, created lazily, each behind
/// its own lock.
pub struct Tokens {
    map: RwLock<Vec<ChannelEntry>, MapPred>,
}

/// The position of the entry carrying the key, scanning from the front, or
/// `None` if the key is unseen.
fn find_entry(entries: &Vec<ChannelEntry>, team_id: &String, channel_id: &String) -> (r: Option<
    usize,
>)
    ensures
        match r {
            Some(i) => i < entries@.len() && entry_has_key(
                entries@[i as int],
                team_id@,
                channel_id@,
            ),
            None => !has_key(entries@, team_id@, channel_id@),
        },
{
    let n = entries.len();
    let mut i: usize = 0;
    while i < n
        invariant
            n == entries@.len(),
            i <= n,
            forall|k: int| 0 <= k < i ==> !entry_has_key(entries@[k], team_id@, channel_id@),
        decreases n - i,
    {
        if entries[i].team_id == *team_id && entries[i].channel_id == *channel_id {
            return Some(i);
        }
        i = i + 1;
    }
    None
}

/// The registry's lazy-creation step, run while the map is held
/// exclusively: hands back the queue registered for the key, first
/// registering a fresh empty one if the key is unseen. Entries for every
/// other key — their position, key and queue — are left exactly as they
/// were, and keys stay pairwise distinct.
pub fn get_or_insert(
    entries: &mut Vec<ChannelEntry>,
    team_id: &String,
    channel_id: &String,
) -> (r: TokenRef)
    requires
        entries_wf(old(entries)@),
    ensures
        entries_wf(final(entries)@),
        has_key(final(entries)@, team_id@, channel_id@),
        lookup(final(entries)@, team_id@, channel_id@) == Some(r),
        has_key(old(entries)@, team_id@, channel_id@) ==> final(entries)@ == old(entries)@,
        !has_key(old(entries)@, team_id@, channel_id@) ==> final(entries)@.len() == old(
            entries,
        )@.len() + 1 && final(entries)@.subrange(0, old(entries)@.len() as int) == old(entries)@,
        forall|t: Seq<char>, c: Seq<char>|
            !(t == team_id@ && c == channel_id@) ==> lookup(final(entries)@, t, c) == lookup(
                old(entries)@,
                t,
                c,
            ),
        forall|t: Token| #[trigger] (*r).inv(t) <==> t.wf(),
{
    match find_entry(entries, team_id, channel_id) {
        Some(i) => {
            let r = entries[i].token.clone();
            proof {
                lemma_key_unique(entries@, i as int, index_of_key(entries@, team_id@, channel_id@));
            }
            r
        },
        None => {
            let token: TokenRef = Arc::new(RwLock::new(Token::new(), Ghost(TokenPred {})));
            let entry = ChannelEntry {
                team_id: team_id.clone(),
                channel_id: channel_id.clone(),
                token: token.clone(),
            };
            proof {
                lemma_entries_wf_push(entries@, entry);
            }
            let ghost old_entries = entries@;
            entries.push(entry);
            proof {
                assert(entry_has_key(entries@[old_entries.len() as int], team_id@, channel_id@));
                lemma_key_unique(
                    entries@,
                    old_entries.len() as int,
                    index_of_key(entries@, team_id@, channel_id@),
                );
                assert(entries@.subrange(0, old_entries.len() as int) =~= old_entries);
                assert forall|t: Seq<char>, c: Seq<char>|
                    !(t == team_id@ && c == channel_id@) implies lookup(entries@, t, c) == lookup(
                    old_entries,
                    t,
                    c,
                ) by {
                    lemma_lookup_push_other_keys(old_entries, entries@[old_entries.len() as int], t, c);
                }
            }
            token
        },
    }
}

impl Tokens {
    /// Constructs an empty registry: no channel has a queue yet.
    pub fn new() -> (r: Tokens)
    {
        Tokens { map: RwLock::new(Vec::new(), Ghost(MapPred {})) }
    }

    /// Returns the queue for `(team_id, channel_id)`, registering a fresh
    /// empty one first if the key has not been seen. The map lock is taken
    /// shared for a lookup of a known key and exclusively only to register
    /// a fresh one, so every value read from the returned lock is a
    /// well-formed queue and at most one queue is ever registered per key.
    pub fn resolve(&self, team_id: &String, channel_id: &String) -> (r: TokenRef)
        ensures
            forall|t: Token| #[trigger] (*r).inv(t) <==> t.wf(),
    {
        let read = self.map.acquire_read();
        let entries = read.borrow();
        let found = find_entry(entries, team_id, channel_id);
        match found {
            Some(i) => {
                let r = entries[i].token.clone();
                read.release_read();
                r
            },
            None => {
                read.release_read();
                let (mut entries, handle) = self.map.acquire_write();
                let r = get_or_insert(&mut entries, team_id, channel_id);
                handle.release_write(entries);
                r
            },
        }
    }
}

} // verus!
