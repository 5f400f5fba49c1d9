//! Per-connection client state and per-session metadata.
//!
//! A `Client` exists only for the duration of one connection; a `Game`
//! wraps one simulated world with session metadata: the world's kind tag,
//! the last-tick timestamp, and the ordered list of participant
//! identities. The world's numeric state itself lives outside the
//! verified core; this crate owns every decision about it. All clock
//! readings are handed in by the caller as plain millisecond or second
//! counts, so every function here is deterministic and fully specified.

use vstd::prelude::*;

verus! {

/// Per-connection state: the assigned client id and the time of the last
/// ping, as seconds handed in by the caller.
pub struct Client {
    pub id: u64,
    pub last_ping_time: u64,
}

impl Client {
    /// A fresh client, with the ping clock started at `now_secs`.
    pub fn new(id: u64, now_secs: u64) -> (c: Client)
        ensures
            c.id == id,
            c.last_ping_time == now_secs,
    {
        Client { id, last_ping_time: now_secs }
    }

    /// Records a ping at `now_secs`; nothing else changes.
    pub fn update_ping(&mut self, now_secs: u64)
        ensures
            final(self).id == old(self).id,
            final(self).last_ping_time == now_secs,
    {
        self.last_ping_time = now_secs;
    }
}

/// One game session's metadata: the world-kind tag, the last-tick
/// timestamp in milliseconds, and the participant identities in joining
/// order — the position of an identity in the list is its slot.
pub struct Game {
    pub game_type: u8,
    pub last_update_ms: u64,
    pub players: Vec<u64>,
}

impl Game {
    /// A fresh session of kind `game_type` with the given participants,
    /// capturing `now_ms` as the last-tick timestamp.
    pub fn new(game_type: u8, players: Vec<u64>, now_ms: u64) -> (g: Game)
        ensures
            g.game_type == game_type,
            g.last_update_ms == now_ms,
            g.players == players,
    {
        Game { game_type, last_update_ms: now_ms, players }
    }

    /// One tick's bookkeeping: advances the last-tick timestamp to
    /// `now_ms` and hands back the elapsed milliseconds the world must be
    /// stepped by. A tick that fires twice within the same millisecond,
    /// or a clock that reads earlier than the last tick, yields `None`:
    /// the step is a no-op, never a division by zero, and a backwards
    /// clock never corrupts the timestamp.
    pub fn get_and_update_duration(&mut self, now_ms: u64) -> (elapsed: Option<u64>)
        ensures
            final(self).game_type == old(self).game_type,
            final(self).players == old(self).players,
            now_ms > old(self).last_update_ms ==> {
                &&& elapsed == Some((now_ms - old(self).last_update_ms) as u64)
                &&& final(self).last_update_ms == now_ms
            },
            now_ms <= old(self).last_update_ms ==> {
                &&& elapsed is None
                &&& final(self).last_update_ms == old(self).last_update_ms
            },
    {
        if now_ms > self.last_update_ms {
            let elapsed = now_ms - self.last_update_ms;
            self.last_update_ms = now_ms;
            Some(elapsed)
        } else {
            None
        }
    }

    /// The slot of an identity among the participants: the index of its
    /// first occurrence, or `None` when it is not a participant.
    pub fn player_slot(&self, identity: u64) -> (r: Option<usize>)
        ensures
            r matches Some(slot) ==> {
                &&& slot < self.players@.len()
                &&& self.players@[slot as int] == identity
                &&& forall|j: int| 0 <= j < slot ==> self.players@[j] != identity
            },
            r is None <==> !self.players@.contains(identity),
    {
        let mut i: usize = 0;
        while i < self.players.len()
            invariant
                i <= self.players@.len(),
                forall|j: int| 0 <= j < i ==> self.players@[j] != identity,
            decreases self.players@.len() - i,
        {
            if self.players[i] == identity {
                return Some(i);
            }
            i = i + 1;
        }
        proof {
            assert(!self.players@.contains(identity));
        }
        None
    }
}

} // verus!
