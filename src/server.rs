//! The server's bookkeeping: which origin plays which player, and the last
//! input id it has processed from each.
use vstd::prelude::*;

verus! {

/// The number of server ticks per second at start-up.
pub const DEFAULT_TICKRATE: usize = 4;

/// The transport-level address that a client's messages come from.
#[derive(Clone, Copy, Debug, PartialEq, Eq, Structural, Hash)]
pub struct Origin {
    /// Whether the address is an IPv6 one.
    pub v6: bool,
    /// The IP address, as a number (an IPv4 address in the low 32 bits).
    pub ip: u128,
    /// The port.
    pub port: u16,
    /// The IPv6 flow information (zero for IPv4).
    pub flowinfo: u32,
    /// The IPv6 scope id (zero for IPv4).
    pub scope_id: u32,
}

/// What the server tells one client each tick, besides the game state.
#[derive(Clone, Copy, Debug, PartialEq, Eq, Structural)]
pub struct Ack {
    /// Where to send it.
    pub origin: Origin,
    /// The id of the latest input of this client that the server has processed.
    pub ack_id: usize,
    /// The client's player index.
    pub player_idx: usize,
}

/// The clients the server knows, in the order it first heard from them; a
/// client's position is its player index.
pub struct Roster {
    clients: Vec<Origin>,
    last_ack: Vec<usize>,
}

/// Where `origin` stands in `clients`, if it is there.
pub open spec fn slot_in(clients: Seq<Origin>, origin: Origin) -> Option<usize> {
    if exists|i: int| 0 <= i < clients.len() && clients[i] == origin {
        Some((choose|i: int| 0 <= i < clients.len() && clients[i] == origin) as usize)
    } else {
        None
    }
}

/// The larger of two ids.
pub open spec fn max_id(a: usize, b: usize) -> usize {
    if a >= b {
        a
    } else {
        b
    }
}

impl Roster {
    /// The known origins, by player index.
    pub closed spec fn clients(&self) -> Seq<Origin> {
        self.clients@
    }

    /// The latest input id processed from each client, by player index.
    pub closed spec fn acks(&self) -> Seq<usize> {
        self.last_ack@
    }

    /// One acknowledgment per client, and no origin twice.
    pub open spec fn wf(&self) -> bool {
        &&& self.clients().len() == self.acks().len()
        &&& forall|i: int, j: int|
            0 <= i < j < self.clients().len() ==> self.clients()[i] != self.clients()[j]
    }

    /// A roster that knows no client.
    pub fn new() -> (r: Roster)
        ensures
            r.wf(),
            r.clients() == Seq::<Origin>::empty(),
            r.acks() == Seq::<usize>::empty(),
    {
        Roster { clients: Vec::new(), last_ack: Vec::new() }
    }

    /// The number of known clients, which is the number of players.
    pub fn len(&self) -> (r: usize)
        ensures
            r == self.clients().len(),
    {
        self.clients.len()
    }

    /// The player index of `origin`, if the server knows it.
    pub fn slot_of(&self, origin: Origin) -> (r: Option<usize>)
        requires
            self.wf(),
        ensures
            r == slot_in(self.clients(), origin),
    {
        let n = self.clients.len();
        let mut i: usize = 0;
        while i < n
            invariant
                self.wf(),
                n == self.clients@.len(),
                i <= n,
                forall|j: int| 0 <= j < i ==> self.clients@[j] != origin,
            decreases n - i,
        {
            if self.clients[i] == origin {
                proof {
                    let c = self.clients@;
                    let k = choose|k: int| 0 <= k < c.len() && c[k] == origin;
                    assert(k == i) by {
                        if k != i as int {
                            assert(c[k] == c[i as int]);
                        }
                    }
                }
                return Some(i);
            }
            i += 1;
        }
        None
    }

    /// Records an input with id `id` from `origin`.
    ///
    /// An origin heard for the first time joins with the next player index
    /// and an acknowledgment of zero. The origin's acknowledgment then becomes
    /// the larger of itself and `id`, so that a late message never takes it
    /// back. Returns the origin's player index, and whether it just joined
    /// (then the caller adds a new player to its game).
    pub fn receive(&mut self, origin: Origin, id: usize) -> (r: (usize, bool))
        requires
            old(self).wf(),
        ensures
            final(self).wf(),
            match slot_in(old(self).clients(), origin) {
                Some(i) => {
                    &&& r == (i, false)
                    &&& final(self).clients() == old(self).clients()
                    &&& final(self).acks() == old(self).acks().update(
                        i as int,
                        max_id(old(self).acks()[i as int], id),
                    )
                },
                None => {
                    &&& r == (old(self).clients().len() as usize, true)
                    &&& final(self).clients() == old(self).clients().push(origin)
                    &&& final(self).acks() == old(self).acks().push(id)
                },
            },
    {
        match self.slot_of(origin) {
            Some(i) => {
                if id > self.last_ack[i] {
                    self.last_ack.set(i, id);
                }
                proof {
                    assert(self.last_ack@ =~= old(self).acks().update(
                        i as int,
                        max_id(old(self).acks()[i as int], id),
                    ));
                }
                (i, false)
            },
            None => {
                let n = self.clients.len();
                self.clients.push(origin);
                self.last_ack.push(id);
                proof {
                    let c = self.clients@;
                    assert forall|i: int, j: int| 0 <= i < j < c.len() implies c[i] != c[j] by {
                        if j == n as int {
                            assert(old(self).clients()[i] == c[i]);
                        } else {
                            assert(old(self).clients()[i] == c[i] && old(self).clients()[j] == c[j]);
                        }
                    }
                }
                (n, true)
            },
        }
    }

    /// What to send each client this tick: its origin, its acknowledgment
    /// and its player index, by player index.
    pub fn acks_to_send(&self) -> (r: Vec<Ack>)
        requires
            self.wf(),
        ensures
            r@.len() == self.clients().len(),
            forall|i: int|
                0 <= i < r@.len() ==> #[trigger] r@[i] == (Ack {
                    origin: self.clients()[i],
                    ack_id: self.acks()[i],
                    player_idx: i as usize,
                }),
    {
        let mut out: Vec<Ack> = Vec::new();
        let n = self.clients.len();
        let mut i: usize = 0;
        while i < n
            invariant
                n == self.clients@.len(),
                n == self.last_ack@.len(),
                i <= n,
                out@.len() == i,
                forall|j: int|
                    0 <= j < i ==> #[trigger] out@[j] == (Ack {
                        origin: self.clients@[j],
                        ack_id: self.last_ack@[j],
                        player_idx: j as usize,
                    }),
            decreases n - i,
        {
            out.push(Ack { origin: self.clients[i], ack_id: self.last_ack[i], player_idx: i });
            i += 1;
        }
        out
    }
}

/// One more tick per second; stays at the largest rate.
pub fn raise_tickrate(tickrate: usize) -> (r: usize)
    ensures
        r == if tickrate < usize::MAX { tickrate + 1 } else { tickrate as int },
{
    if tickrate < usize::MAX {
        tickrate + 1
    } else {
        tickrate
    }
}

/// One tick per second fewer, but never under one.
pub fn lower_tickrate(tickrate: usize) -> (r: usize)
    ensures
        r == if tickrate > 1 { tickrate - 1 } else { 1 },
{
    if tickrate > 1 {
        tickrate - 1
    } else {
        1
    }
}

} // verus!
