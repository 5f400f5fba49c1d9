//! The session registry: lookup, matchmaking insertion, and removal.
//!
//! The registry maps session ids to sessions. Ids are assigned as one more
//! than the largest id present (one, when the registry is empty), so ids
//! are unique at all times. Matchmaking walks the sessions in insertion
//! order — the registry's documented iteration order — and the first match
//! wins. A session leaves the registry when its last participant
//! disconnects; removing one session never touches any other.

use vstd::prelude::*;

use crate::session::Game;
use crate::MAX_PLAYERS;
use crate::SOCCER_KIND;

verus! {

/// One registry entry: a session id and the session it names.
pub struct RegistryEntry {
    pub id: u64,
    pub game: Game,
}

/// The session registry: entries in insertion order, ids unique.
pub struct Registry {
    pub entries: Vec<RegistryEntry>,
}

/// What a join request came to.
#[derive(Clone, Copy, Debug, PartialEq, Eq, Structural)]
pub enum JoinOutcome {
    /// The requester is in the session `session_id` at participant slot
    /// `slot`; `created` says whether the session was made for them.
    Joined { session_id: u64, slot: usize, created: bool },
    /// The requester named a session id that is not in the registry.
    SessionNotFound,
    /// The requester named a session that already holds its full count
    /// of participants, none of them the requester.
    SessionFull,
    /// No session id can be allocated any more: the largest possible id
    /// is already taken.
    IdsExhausted,
}

/// `slot` is the first position of `identity` among `players`.
pub open spec fn first_slot(players: Seq<u64>, identity: u64, slot: int) -> bool {
    &&& 0 <= slot < players.len()
    &&& players[slot] == identity
    &&& forall|j: int| 0 <= j < slot ==> players[j] != identity
}

/// Entry `i` is the first session that has `identity` as a participant.
pub open spec fn first_player_session(pre: Registry, identity: u64, i: int) -> bool {
    &&& 0 <= i < pre.entries@.len()
    &&& pre.entries@[i].game.players@.contains(identity)
    &&& forall|j: int| 0 <= j < i ==> !pre.entries@[j].game.players@.contains(identity)
}

/// Entry `i` is the first session with exactly one participant.
pub open spec fn first_open_session(pre: Registry, i: int) -> bool {
    &&& 0 <= i < pre.entries@.len()
    &&& pre.entries@[i].game.players@.len() == 1
    &&& forall|j: int| 0 <= j < i ==> pre.entries@[j].game.players@.len() != 1
}

/// The largest session id among the entries; zero when there are none.
pub open spec fn seq_max_id(s: Seq<RegistryEntry>) -> u64
    decreases s.len(),
{
    if s.len() == 0 {
        0
    } else {
        let m = seq_max_id(s.drop_last());
        if s.last().id > m {
            s.last().id
        } else {
            m
        }
    }
}

/// Every id among the entries is at most the largest.
pub proof fn lemma_max_id_ge(s: Seq<RegistryEntry>)
    ensures
        forall|i: int| 0 <= i < s.len() ==> #[trigger] s[i].id <= seq_max_id(s),
    decreases s.len(),
{
    if s.len() > 0 {
        lemma_max_id_ge(s.drop_last());
        assert forall|i: int| 0 <= i < s.len() implies #[trigger] s[i].id <= seq_max_id(s) by {
            if i < s.len() - 1 {
                assert(s.drop_last()[i] == s[i]);
                assert(s.drop_last()[i].id <= seq_max_id(s.drop_last()));
            }
        }
    }
}

/// How joining a present entry `i` reads and changes the registry:
/// a participant already there reconnects at their slot; otherwise the
/// requester takes the next open slot, capped at the session's capacity.
pub open spec fn join_entry_spec(
    pre: Registry,
    post: Registry,
    i: int,
    identity: u64,
    r: JoinOutcome,
) -> bool {
    let g = pre.entries@[i].game;
    let id = pre.entries@[i].id;
    if g.players@.contains(identity) {
        &&& post == pre
        &&& (r matches JoinOutcome::Joined { session_id, slot, created } && session_id == id
            && !created && first_slot(g.players@, identity, slot as int))
    } else if g.players@.len() < MAX_PLAYERS {
        &&& (r matches JoinOutcome::Joined { session_id, slot, created } && session_id == id
            && !created && slot == g.players@.len())
        &&& post.entries@.len() == pre.entries@.len()
        &&& (forall|j: int|
            0 <= j < pre.entries@.len() && j != i ==> post.entries@[j] == pre.entries@[j])
        &&& post.entries@[i].id == id
        &&& post.entries@[i].game.game_type == g.game_type
        &&& post.entries@[i].game.last_update_ms == g.last_update_ms
        &&& post.entries@[i].game.players@ == g.players@.push(identity)
    } else {
        &&& r == JoinOutcome::SessionFull
        &&& post == pre
    }
}

/// How a join that names a session id reads and changes the registry.
pub open spec fn join_requested_spec(
    pre: Registry,
    post: Registry,
    id: u64,
    identity: u64,
    r: JoinOutcome,
) -> bool {
    &&& (!pre.contains_id(id) ==> r == JoinOutcome::SessionNotFound && post == pre)
    &&& (forall|i: int|
        0 <= i < pre.entries@.len() && (#[trigger] pre.entries@[i].id) == id ==> join_entry_spec(
            pre,
            post,
            i,
            identity,
            r,
        ))
}

/// How a freshly created session extends the registry: a new entry at the
/// end, its id one more than the largest id present, the requester its
/// sole participant, the creation time its last-tick timestamp.
pub open spec fn created_spec(
    pre: Registry,
    post: Registry,
    identity: u64,
    now_ms: u64,
    r: JoinOutcome,
) -> bool {
    let new_id = (seq_max_id(pre.entries@) + 1) as u64;
    &&& (r matches JoinOutcome::Joined { session_id, slot, created } && session_id == new_id
        && slot == 0 && created)
    &&& post.entries@.len() == pre.entries@.len() + 1
    &&& (forall|j: int| 0 <= j < pre.entries@.len() ==> post.entries@[j] == pre.entries@[j])
    &&& post.entries@.last().id == new_id
    &&& post.entries@.last().game.game_type == SOCCER_KIND
    &&& post.entries@.last().game.last_update_ms == now_ms
    &&& post.entries@.last().game.players@ == seq![identity]
}

/// How a join without a session id reads and changes the registry, in
/// matchmaking order: a session already holding the requester wins first,
/// then the first session with an open slot, and only then is a session
/// created — unless no id is left to allocate.
pub open spec fn matchmake_spec(
    pre: Registry,
    post: Registry,
    identity: u64,
    now_ms: u64,
    r: JoinOutcome,
) -> bool {
    if exists|i: int|
        0 <= i < pre.entries@.len() && (#[trigger] pre.entries@[i].game).players@.contains(
            identity,
        ) {
        forall|i: int|
            first_player_session(pre, identity, i) ==> {
                &&& post == pre
                &&& (r matches JoinOutcome::Joined { session_id, slot, created } && session_id
                    == pre.entries@[i].id && !created && first_slot(
                    pre.entries@[i].game.players@,
                    identity,
                    slot as int,
                ))
            }
    } else if exists|i: int|
        0 <= i < pre.entries@.len() && (#[trigger] pre.entries@[i].game).players@.len() == 1 {
        forall|i: int|
            first_open_session(pre, i) ==> join_entry_spec(pre, post, i, identity, r)
    } else if seq_max_id(pre.entries@) == u64::MAX {
        &&& r == JoinOutcome::IdsExhausted
        &&& post == pre
    } else {
        created_spec(pre, post, identity, now_ms, r)
    }
}

/// How a disconnect reads and changes the registry: the identity's first
/// occurrence leaves the named session's participant list, and a session
/// whose last participant left leaves the registry; an absent session or
/// an identity that is no participant changes nothing.
pub open spec fn disconnect_spec(
    pre: Registry,
    post: Registry,
    session_id: u64,
    identity: u64,
    removed: bool,
) -> bool {
    &&& (!pre.contains_id(session_id) ==> !removed && post == pre)
    &&& (forall|i: int|
        0 <= i < pre.entries@.len() && (#[trigger] pre.entries@[i].id) == session_id ==> {
            let g = pre.entries@[i].game;
            if !g.players@.contains(identity) {
                &&& !removed
                &&& post == pre
            } else {
                forall|slot: int|
                    first_slot(g.players@, identity, slot) ==> {
                        if g.players@.len() == 1 {
                            &&& removed
                            &&& post.entries@ == pre.entries@.remove(i)
                        } else {
                            &&& !removed
                            &&& post.entries@.len() == pre.entries@.len()
                            &&& (forall|j: int|
                                0 <= j < pre.entries@.len() && j != i ==> post.entries@[j]
                                    == pre.entries@[j])
                            &&& post.entries@[i].id == session_id
                            &&& post.entries@[i].game.game_type == g.game_type
                            &&& post.entries@[i].game.last_update_ms == g.last_update_ms
                            &&& post.entries@[i].game.players@ == g.players@.remove(slot)
                        }
                    }
            }
        })
}

impl Registry {
    /// Ids are unique across the entries.
    pub open spec fn wf(self) -> bool {
        forall|i: int, j: int|
            0 <= i < j < self.entries@.len() ==> (#[trigger] self.entries@[i].id) != (
            #[trigger] self.entries@[j].id)
    }

    /// Some entry carries this id.
    pub open spec fn contains_id(self, id: u64) -> bool {
        exists|i: int| 0 <= i < self.entries@.len() && (#[trigger] self.entries@[i].id) == id
    }

    /// An empty registry.
    pub fn new() -> (r: Registry)
        ensures
            r.entries@.len() == 0,
            r.wf(),
    {
        Registry { entries: Vec::new() }
    }

    /// The position of the entry that carries `id`, if any.
    pub fn lookup_index(&self, id: u64) -> (r: Option<usize>)
        ensures
            r matches Some(i) ==> {
                &&& i < self.entries@.len()
                &&& self.entries@[i as int].id == id
            },
            r is None <==> !self.contains_id(id),
    {
        let mut i: usize = 0;
        while i < self.entries.len()
            invariant
                i <= self.entries@.len(),
                forall|j: int| 0 <= j < i ==> (#[trigger] self.entries@[j].id) != id,
            decreases self.entries@.len() - i,
        {
            if self.entries[i].id == id {
                return Some(i);
            }
            i = i + 1;
        }
        None
    }

    /// True when some session carries this id.
    pub fn contains(&self, id: u64) -> (r: bool)
        ensures
            r == self.contains_id(id),
    {
        self.lookup_index(id).is_some()
    }

    /// The largest session id present; zero when the registry is empty.
    pub fn max_id(&self) -> (r: u64)
        ensures
            r == seq_max_id(self.entries@),
    {
        let mut m: u64 = 0;
        let mut i: usize = 0;
        while i < self.entries.len()
            invariant
                i <= self.entries@.len(),
                m == seq_max_id(self.entries@.subrange(0, i as int)),
            decreases self.entries@.len() - i,
        {
            let id = self.entries[i].id;
            if id > m {
                m = id;
            }
            i = i + 1;
            proof {
                assert(self.entries@.subrange(0, i as int).drop_last() =~= self.entries@.subrange(
                    0,
                    i - 1,
                ));
            }
        }
        proof {
            assert(self.entries@.subrange(0, self.entries@.len() as int) =~= self.entries@);
        }
        m
    }

    /// The first session that has `identity` as a participant.
    pub fn find_player_session(&self, identity: u64) -> (r: Option<usize>)
        ensures
            r matches Some(i) ==> first_player_session(*self, identity, i as int),
            r is None ==> forall|i: int|
                0 <= i < self.entries@.len() ==> !(#[trigger] self.entries@[i].game).players@.contains(
                    identity,
                ),
    {
        let mut i: usize = 0;
        while i < self.entries.len()
            invariant
                i <= self.entries@.len(),
                forall|j: int|
                    0 <= j < i ==> !(#[trigger] self.entries@[j].game).players@.contains(identity),
            decreases self.entries@.len() - i,
        {
            if self.entries[i].game.player_slot(identity).is_some() {
                return Some(i);
            }
            i = i + 1;
        }
        None
    }

    /// The first session with exactly one participant.
    pub fn find_open_session(&self) -> (r: Option<usize>)
        ensures
            r matches Some(i) ==> first_open_session(*self, i as int),
            r is None ==> forall|i: int|
                0 <= i < self.entries@.len() ==> (#[trigger] self.entries@[i].game).players@.len()
                    != 1,
    {
        let mut i: usize = 0;
        while i < self.entries.len()
            invariant
                i <= self.entries@.len(),
                forall|j: int|
                    0 <= j < i ==> (#[trigger] self.entries@[j].game).players@.len() != 1,
            decreases self.entries@.len() - i,
        {
            if self.entries[i].game.players.len() == 1 {
                return Some(i);
            }
            i = i + 1;
        }
        None
    }

    /// Joins the session at entry `i`: a participant already there gets
    /// their slot back; otherwise the requester takes the next open slot,
    /// unless the session is full.
    pub fn join_at(&mut self, i: usize, identity: u64) -> (r: JoinOutcome)
        requires
            i < old(self).entries@.len(),
            old(self).wf(),
        ensures
            final(self).wf(),
            join_entry_spec(*old(self), *final(self), i as int, identity, r),
    {
        let sid = self.entries[i].id;
        let slot_opt = self.entries[i].game.player_slot(identity);
        match slot_opt {
            Some(slot) => JoinOutcome::Joined { session_id: sid, slot, created: false },
            None => {
                let n = self.entries[i].game.players.len();
                if n < MAX_PLAYERS {
                    let mut e = self.entries.remove(i);
                    e.game.players.push(identity);
                    let ghost enew = e;
                    self.entries.insert(i, e);
                    proof {
                        assert(self.entries@ =~= old(self).entries@.update(i as int, enew));
                    }
                    JoinOutcome::Joined { session_id: sid, slot: n, created: false }
                } else {
                    JoinOutcome::SessionFull
                }
            },
        }
    }

    /// Creates a session for `identity` alone, of the soccer kind, with
    /// id one more than the largest present (one, when the registry is
    /// empty). `None` exactly when no id is left to allocate.
    pub fn create_session(&mut self, identity: u64, now_ms: u64) -> (r: Option<u64>)
        requires
            old(self).wf(),
        ensures
            final(self).wf(),
            r is None <==> seq_max_id(old(self).entries@) == u64::MAX,
            r is None ==> *final(self) == *old(self),
            r matches Some(new_id) ==> {
                &&& new_id == seq_max_id(old(self).entries@) + 1
                &&& !old(self).contains_id(new_id)
                &&& final(self).entries@.len() == old(self).entries@.len() + 1
                &&& (forall|j: int|
                    0 <= j < old(self).entries@.len() ==> final(self).entries@[j] == old(
                        self,
                    ).entries@[j])
                &&& final(self).entries@.last().id == new_id
                &&& final(self).entries@.last().game.game_type == SOCCER_KIND
                &&& final(self).entries@.last().game.last_update_ms == now_ms
                &&& final(self).entries@.last().game.players@ == seq![identity]
            },
    {
        let m = self.max_id();
        if m == u64::MAX {
            None
        } else {
            let new_id = m + 1;
            let mut players: Vec<u64> = Vec::new();
            players.push(identity);
            let g = Game::new(SOCCER_KIND, players, now_ms);
            self.entries.push(RegistryEntry { id: new_id, game: g });
            proof {
                lemma_max_id_ge(old(self).entries@);
                assert forall|i: int, j: int| 0 <= i < j < self.entries@.len() implies (
                #[trigger] self.entries@[i].id) != (#[trigger] self.entries@[j].id) by {
                    if j == self.entries@.len() - 1 {
                        assert(self.entries@[i] == old(self).entries@[i]);
                        assert(old(self).entries@[i].id <= seq_max_id(old(self).entries@));
                    }
                }
                assert(g.players@ =~= seq![identity]);
            }
            Some(new_id)
        }
    }

    /// Resolves a join request against the registry, in the order the
    /// matchmaking rules give: a named session is joined directly; else a
    /// session already holding the requester wins; else the first session
    /// with an open slot; else a fresh session is created.
    pub fn find_or_create(&mut self, requested: Option<u64>, identity: u64, now_ms: u64) -> (r:
        JoinOutcome)
        requires
            old(self).wf(),
        ensures
            final(self).wf(),
            match requested {
                Some(id) => join_requested_spec(*old(self), *final(self), id, identity, r),
                None => matchmake_spec(*old(self), *final(self), identity, now_ms, r),
            },
    {
        match requested {
            Some(id) => {
                match self.lookup_index(id) {
                    None => JoinOutcome::SessionNotFound,
                    Some(i) => {
                        let r = self.join_at(i, identity);
                        proof {
                            assert forall|k: int|
                                0 <= k < old(self).entries@.len() && (#[trigger] old(
                                    self,
                                ).entries@[k].id) == id implies join_entry_spec(
                                *old(self),
                                *self,
                                k,
                                identity,
                                r,
                            ) by {
                                if k != i as int {
                                    assert(false);
                                }
                            }
                        }
                        r
                    },
                }
            },
            None => {
                match self.find_player_session(identity) {
                    Some(i) => {
                        let sid = self.entries[i].id;
                        let slot = self.entries[i].game.player_slot(identity).unwrap();
                        JoinOutcome::Joined { session_id: sid, slot, created: false }
                    },
                    None => {
                        match self.find_open_session() {
                            Some(i) => self.join_at(i, identity),
                            None => {
                                match self.create_session(identity, now_ms) {
                                    Some(new_id) => JoinOutcome::Joined {
                                        session_id: new_id,
                                        slot: 0,
                                        created: true,
                                    },
                                    None => JoinOutcome::IdsExhausted,
                                }
                            },
                        }
                    },
                }
            },
        }
    }

    /// Records that `identity` left the session `session_id`: their first
    /// occurrence leaves the participant list, and when no participant
    /// remains the session's entry is deleted — from then on lookups by
    /// that id fail. No other session is touched, and every other id
    /// stays exactly as present as it was.
    pub fn disconnect(&mut self, session_id: u64, identity: u64) -> (removed: bool)
        requires
            old(self).wf(),
        ensures
            final(self).wf(),
            disconnect_spec(*old(self), *final(self), session_id, identity, removed),
            removed ==> !final(self).contains_id(session_id),
            forall|other: u64|
                other != session_id ==> #[trigger] final(self).contains_id(other) == old(
                    self,
                ).contains_id(other),
    {
        let idx = match self.lookup_index(session_id) {
            None => {
                return false;
            },
            Some(i) => i,
        };
        let slot = match self.entries[idx].game.player_slot(identity) {
            None => {
                return false;
            },
            Some(s) => s,
        };
        let mut e = self.entries.remove(idx);
        e.game.players.remove(slot);
        if e.game.players.len() == 0 {
            proof {
                lemma_remove_preserves(old(self).entries@, idx as int);
                assert forall|other: u64|
                    other != session_id implies #[trigger] self.contains_id(other) == old(
                    self,
                ).contains_id(other) by {
                    lemma_contains_after_remove(*old(self), *self, idx as int, other);
                }
                assert forall|k: int|
                    0 <= k < self.entries@.len() implies (#[trigger] self.entries@[k].id)
                    != session_id by {
                    if k < idx as int {
                        assert(self.entries@[k] == old(self).entries@[k]);
                    } else {
                        assert(self.entries@[k] == old(self).entries@[k + 1]);
                    }
                }
            }
            true
        } else {
            let ghost enew = e;
            self.entries.insert(idx, e);
            proof {
                assert(self.entries@ =~= old(self).entries@.update(idx as int, enew));
                assert forall|other: u64|
                    other != session_id implies #[trigger] self.contains_id(other) == old(
                    self,
                ).contains_id(other) by {
                    assert forall|k: int|
                        0 <= k < old(self).entries@.len() implies self.entries@[k].id == old(
                        self,
                    ).entries@[k].id by {}
                }
            }
            false
        }
    }

    /// One scheduler tick for the session `session_id`: its last-tick
    /// timestamp advances to `now_ms` and the elapsed milliseconds to
    /// step its world by come back, `Some(None)` when no time passed (the
    /// step is then a no-op). `None` when no session carries that id;
    /// nothing else changes either way.
    pub fn tick(&mut self, session_id: u64, now_ms: u64) -> (r: Option<Option<u64>>)
        requires
            old(self).wf(),
        ensures
            final(self).wf(),
            r is None <==> !old(self).contains_id(session_id),
            r is None ==> *final(self) == *old(self),
            forall|i: int|
                0 <= i < old(self).entries@.len() && (#[trigger] old(self).entries@[i].id)
                    == session_id ==> {
                    let g = old(self).entries@[i].game;
                    &&& final(self).entries@.len() == old(self).entries@.len()
                    &&& (forall|j: int|
                        0 <= j < old(self).entries@.len() && j != i ==> final(self).entries@[j]
                            == old(self).entries@[j])
                    &&& final(self).entries@[i].id == session_id
                    &&& final(self).entries@[i].game.game_type == g.game_type
                    &&& final(self).entries@[i].game.players == g.players
                    &&& (now_ms > g.last_update_ms ==> {
                        &&& r == Some(Some((now_ms - g.last_update_ms) as u64))
                        &&& final(self).entries@[i].game.last_update_ms == now_ms
                    })
                    &&& (now_ms <= g.last_update_ms ==> {
                        &&& r == Some(Option::<u64>::None)
                        &&& final(self).entries@[i].game.last_update_ms == g.last_update_ms
                    })
                },
    {
        let idx = match self.lookup_index(session_id) {
            None => {
                return None;
            },
            Some(i) => i,
        };
        let mut e = self.entries.remove(idx);
        let elapsed = e.game.get_and_update_duration(now_ms);
        let ghost enew = e;
        self.entries.insert(idx, e);
        proof {
            assert(self.entries@ =~= old(self).entries@.update(idx as int, enew));
        }
        Some(elapsed)
    }

    /// The session ids, in insertion order.
    pub fn session_ids(&self) -> (r: Vec<u64>)
        ensures
            r@.len() == self.entries@.len(),
            forall|i: int| 0 <= i < r@.len() ==> r@[i] == (#[trigger] self.entries@[i].id),
    {
        let mut r: Vec<u64> = Vec::new();
        let mut i: usize = 0;
        while i < self.entries.len()
            invariant
                i <= self.entries@.len(),
                r@.len() == i,
                forall|j: int| 0 <= j < i ==> r@[j] == (#[trigger] self.entries@[j].id),
            decreases self.entries@.len() - i,
        {
            r.push(self.entries[i].id);
            i = i + 1;
        }
        r
    }

    /// How many participants the session `session_id` holds, if any
    /// session carries that id.
    pub fn player_count(&self, session_id: u64) -> (r: Option<usize>)
        requires
            self.wf(),
        ensures
            r is None <==> !self.contains_id(session_id),
            forall|i: int|
                0 <= i < self.entries@.len() && (#[trigger] self.entries@[i].id) == session_id
                    ==> r == Some(self.entries@[i].game.players@.len() as usize),
    {
        match self.lookup_index(session_id) {
            None => None,
            Some(i) => {
                proof {
                    assert forall|k: int|
                        0 <= k < self.entries@.len() && (#[trigger] self.entries@[k].id)
                            == session_id implies k == i as int by {}
                }
                Some(self.entries[i].game.players.len())
            },
        }
    }
}

/// Deleting an entry keeps the remaining entries and their order.
pub proof fn lemma_remove_preserves(s: Seq<RegistryEntry>, i: int)
    requires
        0 <= i < s.len(),
    ensures
        s.remove(i).len() == s.len() - 1,
        forall|j: int| 0 <= j < i ==> s.remove(i)[j] == s[j],
        forall|j: int| i <= j < s.len() - 1 ==> s.remove(i)[j] == s[j + 1],
{
}

/// After deleting entry `i`, an id different from that entry's is present
/// exactly as before, and with unique ids the deleted one is gone.
pub proof fn lemma_contains_after_remove(pre: Registry, post: Registry, i: int, other: u64)
    requires
        pre.wf(),
        0 <= i < pre.entries@.len(),
        post.entries@ == pre.entries@.remove(i),
        other != pre.entries@[i].id,
    ensures
        post.contains_id(other) == pre.contains_id(other),
{
    lemma_remove_preserves(pre.entries@, i);
    if pre.contains_id(other) {
        let k = choose|k: int|
            0 <= k < pre.entries@.len() && (#[trigger] pre.entries@[k].id) == other;
        if k < i {
            assert(post.entries@[k].id == other);
        } else {
            assert(k > i);
            assert(post.entries@[k - 1].id == other);
        }
    }
    if post.contains_id(other) {
        let k = choose|k: int|
            0 <= k < post.entries@.len() && (#[trigger] post.entries@[k].id) == other;
        if k < i {
            assert(pre.entries@[k].id == other);
        } else {
            assert(pre.entries@[k + 1].id == other);
        }
    }
}

} // verus!
