//! Client-side netcode: the input history, and the plan that reconciliation,
//! prediction and interpolation make for each frame.
//!
//! Time is counted in nanoseconds on a monotonic clock that the caller reads.
use vstd::prelude::*;
use crate::model::Movement;

verus! {

/// The first estimate of the server's tick interval, in nanoseconds, used
/// until two snapshots have arrived.
pub const INITIAL_TICK_TIME: u64 = 100_000_000;

/// One run of the physics step for one player with one input direction.
#[derive(Clone, Copy, Debug, PartialEq, Eq)]
pub struct Step {
    /// The index of the player to advance.
    pub player: usize,
    /// The input direction.
    pub dir: (i8, i8),
}

/// An interpolation factor, the fraction `num / den`.
#[derive(Clone, Copy, Debug, PartialEq, Eq, Structural)]
pub struct Factor {
    /// The numerator.
    pub num: u64,
    /// The denominator, never zero.
    pub den: u64,
}

/// The remote players whose rendered positions are interpolated this frame.
#[derive(Clone, Debug, PartialEq, Eq)]
pub struct Interpolation {
    /// How far to move from the previous snapshot's position toward the current one.
    pub factor: Factor,
    /// The indices of the players to interpolate, in ascending order.
    pub targets: Vec<usize>,
}

/// What the client does to its local game state this frame.
#[derive(Clone, Debug, PartialEq, Eq)]
pub struct Frame {
    /// The physics steps to run, in order, on the local game state.
    pub steps: Vec<Step>,
    /// The interpolation of remote players, if enabled.
    pub interpolation: Option<Interpolation>,
}

/// Ids are at least one and strictly increase along the history.
#[verifier::opaque]
pub open spec fn ids_ascending(h: Seq<Movement>) -> bool {
    &&& forall|i: int| 0 <= i < h.len() ==> h[i].id >= 1
    &&& forall|i: int, j: int| 0 <= i < j < h.len() ==> h[i].id < h[j].id
}

/// The inputs that acknowledgment `ack` does not confirm, in their order.
pub open spec fn unacknowledged(h: Seq<Movement>, ack: usize) -> Seq<Movement> {
    h.filter(|m: Movement| m.id > ack)
}

/// The inputs that acknowledgment `ack` confirms, in their order.
pub open spec fn acknowledged(h: Seq<Movement>, ack: usize) -> Seq<Movement> {
    h.filter(|m: Movement| m.id <= ack)
}

/// The input directions of `h`, in order.
pub open spec fn dirs_of(h: Seq<Movement>) -> Seq<(i8, i8)> {
    h.map_values(|m: Movement| m.dir)
}

/// The steps that replay the inputs `h` on the local player, if there is one.
pub open spec fn replay_steps(player: Option<usize>, h: Seq<Movement>) -> Seq<Step> {
    match player {
        Some(p) => h.map_values(|m: Movement| Step { player: p, dir: m.dir }),
        None => Seq::empty(),
    }
}

/// The step that applies this frame's input to the local player, if there is one.
pub open spec fn predicted_steps(player: Option<usize>, movement: (i8, i8)) -> Seq<Step> {
    match player {
        Some(p) => seq![Step { player: p, dir: movement }],
        None => Seq::empty(),
    }
}

/// The local player, where its index lies within a game of `n_players` players.
pub open spec fn local_slot(player_idx: Option<usize>, n_players: usize) -> Option<usize> {
    match player_idx {
        Some(i) => if i < n_players { Some(i) } else { None },
        None => None,
    }
}

/// `min(1, elapsed / tick_time)` as a fraction; with no tick time measured
/// yet (zero) the factor is one.
pub open spec fn factor_of(elapsed: u64, tick_time: u64) -> Factor {
    if tick_time == 0 {
        Factor { num: 1, den: 1 }
    } else if elapsed >= tick_time {
        Factor { num: tick_time, den: tick_time }
    } else {
        Factor { num: elapsed, den: tick_time }
    }
}

/// `r` lists, in strictly ascending order, exactly the indices below `bound`
/// that are not the local player's.
pub open spec fn lists_targets(r: Seq<usize>, player_idx: Option<usize>, bound: int) -> bool {
    &&& forall|j: int| 0 <= j < r.len() ==> r[j] < bound && player_idx != Some(#[trigger] r[j])
    &&& forall|j: int, k: int| 0 <= j < k < r.len() ==> r[j] < r[k]
    &&& forall|i: usize| i < bound && player_idx != Some(i) ==> r.contains(i)
}

/// The smallest of three lengths.
pub open spec fn min3(a: int, b: int, c: int) -> int {
    if a <= b && a <= c {
        a
    } else if b <= c {
        b
    } else {
        c
    }
}

/// Time passed from `since` to `now`; zero if the clock reads earlier.
pub open spec fn elapsed_between(since: u64, now: u64) -> u64 {
    if now >= since {
        (now - since) as u64
    } else {
        0
    }
}

/// Runs `step` over `dirs` from state `s`, one direction after the other.
pub open spec fn simulate<S>(step: spec_fn(S, (i8, i8)) -> S, s: S, dirs: Seq<(i8, i8)>) -> S
    decreases dirs.len(),
{
    if dirs.len() == 0 {
        s
    } else {
        step(simulate(step, s, dirs.drop_last()), dirs.last())
    }
}

/// Keeps track of the state that the netcode features need on the client.
///
/// `P` is the player record of a snapshot. Use [`Netcode::push_movement`] and
/// [`Netcode::update`] to feed it each frame, and [`Netcode::apply`] to plan
/// prediction, reconciliation and interpolation.
pub struct Netcode<P> {
    movement_history: Vec<Movement>,
    players_prev: Vec<P>,
    players_current: Vec<P>,
    server_tick_time: u64,
    server_timestamp: u64,
    last_id: usize,
}

impl<P> Netcode<P> {
    /// The inputs not yet confirmed by the server, oldest first.
    pub closed spec fn history(&self) -> Seq<Movement> {
        self.movement_history@
    }

    /// The players of the snapshot before the latest one.
    pub closed spec fn previous(&self) -> Seq<P> {
        self.players_prev@
    }

    /// The players of the latest snapshot.
    pub closed spec fn current(&self) -> Seq<P> {
        self.players_current@
    }

    /// The estimated interval between two server ticks, in nanoseconds.
    pub closed spec fn tick_time(&self) -> u64 {
        self.server_tick_time
    }

    /// When the latest snapshot arrived, in nanoseconds.
    pub closed spec fn timestamp(&self) -> u64 {
        self.server_timestamp
    }

    /// The id of the latest input pushed, zero before the first.
    pub closed spec fn last_id(&self) -> usize {
        self.last_id
    }

    /// The history's ids are ascending, and none exceeds the latest id issued.
    pub open spec fn wf(&self) -> bool {
        &&& ids_ascending(self.history())
        &&& forall|i: int| 0 <= i < self.history().len() ==> #[trigger] self.history()[i].id <= self.last_id()
    }
}

/// Creates the netcode state at time `now`, with an empty history and no snapshot.
pub fn init<P>(now: u64) -> (r: Netcode<P>)
    ensures
        r.wf(),
        r.history() == Seq::<Movement>::empty(),
        r.previous() == Seq::<P>::empty(),
        r.current() == Seq::<P>::empty(),
        r.tick_time() == INITIAL_TICK_TIME,
        r.timestamp() == now,
        r.last_id() == 0,
{
    let r = Netcode {
        movement_history: Vec::new(),
        players_prev: Vec::new(),
        players_current: Vec::new(),
        server_tick_time: INITIAL_TICK_TIME,
        server_timestamp: now,
        last_id: 0,
    };
    proof {
        reveal(ids_ascending);
    }
    r
}

impl<P> Netcode<P> {
    /// Whether another input can get an id: ids are `usize`.
    pub fn can_push(&self) -> (r: bool)
        ensures
            r == (self.last_id() < usize::MAX),
    {
        self.last_id < usize::MAX
    }

    /// Adds a movement to the history, which reconciliation replays until the
    /// server confirms it.
    ///
    /// Returns the id of the movement: one more than the id issued before
    /// (so the first is one), whether or not acknowledgments have emptied
    /// the history since. Ids strictly increase over the client's lifetime.
    pub fn push_movement(&mut self, movement: (i8, i8)) -> (id: usize)
        requires
            old(self).wf(),
            old(self).last_id() < usize::MAX,
        ensures
            final(self).wf(),
            id == old(self).last_id() + 1,
            final(self).last_id() == id,
            final(self).history() == old(self).history().push(Movement { id, dir: movement }),
            final(self).previous() == old(self).previous(),
            final(self).current() == old(self).current(),
            final(self).tick_time() == old(self).tick_time(),
            final(self).timestamp() == old(self).timestamp(),
    {
        let id = self.last_id + 1;
        self.movement_history.push(Movement { id, dir: movement });
        self.last_id = id;
        proof {
            reveal(ids_ascending);
            let h = self.movement_history@;
            assert forall|i: int| 0 <= i < h.len() implies #[trigger] h[i].id <= id by {
                if i < h.len() - 1 {
                    assert(h[i] == old(self).history()[i]);
                }
            }
        }
        id
    }

    /// Records a snapshot's players, received at time `now`.
    ///
    /// The latest players become the previous ones, and the time since the
    /// last snapshot becomes the estimate of the server's tick interval.
    pub fn update(&mut self, players_current: Vec<P>, now: u64)
        ensures
            final(self).history() == old(self).history(),
            final(self).previous() == old(self).current(),
            final(self).current() == players_current@,
            final(self).tick_time() == elapsed_between(old(self).timestamp(), now),
            final(self).timestamp() == now,
            final(self).last_id() == old(self).last_id(),
    {
        std::mem::swap(&mut self.players_prev, &mut self.players_current);
        self.server_tick_time = if now >= self.server_timestamp {
            now - self.server_timestamp
        } else {
            0
        };
        self.server_timestamp = now;
        self.players_current = players_current;
    }

    /// The inputs not yet confirmed by the server, oldest first.
    pub fn movement_history(&self) -> (r: &Vec<Movement>)
        ensures
            r@ == self.history(),
    {
        &self.movement_history
    }

    /// The players of the snapshot before the latest one.
    pub fn players_prev(&self) -> (r: &Vec<P>)
        ensures
            r@ == self.previous(),
    {
        &self.players_prev
    }

    /// The players of the latest snapshot.
    pub fn players_current(&self) -> (r: &Vec<P>)
        ensures
            r@ == self.current(),
    {
        &self.players_current
    }

    /// Drops the inputs that acknowledgment `ack` confirms.
    fn retain_unacknowledged(&mut self, ack: usize)
        requires
            old(self).wf(),
        ensures
            final(self).wf(),
            final(self).history() == unacknowledged(old(self).history(), ack),
            final(self).previous() == old(self).previous(),
            final(self).current() == old(self).current(),
            final(self).tick_time() == old(self).tick_time(),
            final(self).timestamp() == old(self).timestamp(),
            final(self).last_id() == old(self).last_id(),
    {
        let mut kept: Vec<Movement> = Vec::new();
        let n = self.movement_history.len();
        let mut i: usize = 0;
        while i < n
            invariant
                n == self.movement_history.len(),
                i <= n,
                kept@ == unacknowledged(self.movement_history@.subrange(0, i as int), ack),
            decreases n - i,
        {
            let m = self.movement_history[i];
            proof {
                let h = self.movement_history@;
                assert(h.subrange(0, i + 1).drop_last() =~= h.subrange(0, i as int));
                lemma_filters_last(h.subrange(0, i + 1), ack);
            }
            if m.id > ack {
                kept.push(m);
            }
            i += 1;
        }
        proof {
            let h = self.movement_history@;
            assert(h.subrange(0, n as int) =~= h);
            lemma_unacknowledged_suffix(h, ack);
            let u = unacknowledged(h, ack);
            let k = h.len() - u.len();
            assert forall|i: int| 0 <= i < u.len() implies #[trigger] u[i].id <= self.last_id by {
                assert(u[i] == h.subrange(k, h.len() as int)[i]);
                assert(u[i] == h[k + i]);
            }
        }
        self.movement_history = kept;
    }

    /// Plans the client's frame.
    ///
    /// In this order: drops the inputs that `move_ack_id` confirms; if
    /// reconciliation is on and a snapshot arrived this frame (`move_ack_id`
    /// is not zero), replays the remaining inputs, oldest first, on the local
    /// player; if prediction is on, applies this frame's `movement` to the
    /// local player; if interpolation is on, moves every other player between
    /// the two latest snapshots by the time elapsed since the latest one
    /// (`now`) over the estimated tick interval.
    ///
    /// The local player is `player_idx` where it indexes the local game of
    /// `n_players` players; the steps skip it otherwise. Interpolation
    /// covers the indices that both snapshots and the local game have.
    pub fn apply(
        &mut self,
        player_idx: Option<usize>,
        n_players: usize,
        move_ack_id: usize,
        movement: (i8, i8),
        prediction: bool,
        reconciliation: bool,
        interpolation: bool,
        now: u64,
    ) -> (r: Frame)
        requires
            old(self).wf(),
        ensures
            final(self).wf(),
            final(self).history() == unacknowledged(old(self).history(), move_ack_id),
            final(self).previous() == old(self).previous(),
            final(self).current() == old(self).current(),
            final(self).tick_time() == old(self).tick_time(),
            final(self).timestamp() == old(self).timestamp(),
            final(self).last_id() == old(self).last_id(),
            r.steps@ == (if reconciliation && move_ack_id != 0 {
                replay_steps(local_slot(player_idx, n_players), final(self).history())
            } else {
                Seq::<Step>::empty()
            }) + (if prediction {
                predicted_steps(local_slot(player_idx, n_players), movement)
            } else {
                Seq::<Step>::empty()
            }),
            match r.interpolation {
                Some(ip) => {
                    &&& interpolation
                    &&& ip.factor == factor_of(
                        elapsed_between(old(self).timestamp(), now),
                        old(self).tick_time(),
                    )
                    &&& lists_targets(
                        ip.targets@,
                        player_idx,
                        min3(old(self).previous().len() as int, old(self).current().len() as int, n_players as int),
                    )
                },
                None => !interpolation,
            },
    {
        self.retain_unacknowledged(move_ack_id);
        let ghost local = local_slot(player_idx, n_players);
        let mut steps: Vec<Step> = if reconciliation && move_ack_id != 0 {
            reconcile(player_idx, n_players, &self.movement_history)
        } else {
            Vec::new()
        };
        if prediction {
            if let Some(step) = predict(player_idx, n_players, movement) {
                steps.push(step);
            }
        }
        proof {
            let replayed = if reconciliation && move_ack_id != 0 {
                replay_steps(local, self.history())
            } else {
                Seq::<Step>::empty()
            };
            let predicted = if prediction {
                predicted_steps(local, movement)
            } else {
                Seq::<Step>::empty()
            };
            assert(steps@ =~= replayed + predicted);
        }
        let interp = if interpolation {
            let elapsed = if now >= self.server_timestamp {
                now - self.server_timestamp
            } else {
                0
            };
            let n_prev = self.players_prev.len();
            let n_current = self.players_current.len();
            let bound = if n_prev <= n_current && n_prev <= n_players {
                n_prev
            } else if n_current <= n_players {
                n_current
            } else {
                n_players
            };
            Some(
                Interpolation {
                    factor: interpolation_factor(elapsed, self.server_tick_time),
                    targets: interpolation_targets(player_idx, bound),
                },
            )
        } else {
            None
        };
        Frame { steps, interpolation: interp }
    }
}

/// The steps that replay the unconfirmed inputs on the local player, oldest
/// first; none without a local player, or when its index lies outside the
/// local game of `n_players` players.
pub fn reconcile(player_idx: Option<usize>, n_players: usize, movement_history: &Vec<Movement>) -> (r: Vec<Step>)
    ensures
        r@ == replay_steps(local_slot(player_idx, n_players), movement_history@),
{
    let local = local_index(player_idx, n_players);
    let mut steps: Vec<Step> = Vec::new();
    if let Some(p) = local {
        let n = movement_history.len();
        let mut i: usize = 0;
        while i < n
            invariant
                n == movement_history.len(),
                i <= n,
                steps@.len() == i,
                forall|j: int| 0 <= j < i ==> steps@[j] == (Step { player: p, dir: movement_history@[j].dir }),
            decreases n - i,
        {
            steps.push(Step { player: p, dir: movement_history[i].dir });
            i += 1;
        }
        assert(steps@ =~= replay_steps(local, movement_history@));
    } else {
        assert(steps@ =~= replay_steps(local, movement_history@));
    }
    steps
}

/// The local player's index where it lies within a game of `n_players` players.
fn local_index(player_idx: Option<usize>, n_players: usize) -> (r: Option<usize>)
    ensures
        r == local_slot(player_idx, n_players),
{
    match player_idx {
        Some(i) => if i < n_players {
            Some(i)
        } else {
            None
        },
        None => None,
    }
}

/// The step that applies this frame's input to the local player at once,
/// before the server confirms it; none without a local player, or when its
/// index lies outside the local game of `n_players` players.
pub fn predict(player_idx: Option<usize>, n_players: usize, movement: (i8, i8)) -> (r: Option<Step>)
    ensures
        r == (match local_slot(player_idx, n_players) {
            Some(p) => Some(Step { player: p, dir: movement }),
            None => None::<Step>,
        }),
{
    match local_index(player_idx, n_players) {
        Some(p) => Some(Step { player: p, dir: movement }),
        None => None,
    }
}

/// The interpolation factor `min(1, elapsed / tick_time)`, as a fraction.
pub fn interpolation_factor(elapsed: u64, tick_time: u64) -> (r: Factor)
    ensures
        r == factor_of(elapsed, tick_time),
{
    if tick_time == 0 {
        Factor { num: 1, den: 1 }
    } else if elapsed >= tick_time {
        Factor { num: tick_time, den: tick_time }
    } else {
        Factor { num: elapsed, den: tick_time }
    }
}

/// The indices below `bound`, in ascending order, except the local player's.
pub fn interpolation_targets(player_idx: Option<usize>, bound: usize) -> (r: Vec<usize>)
    ensures
        lists_targets(r@, player_idx, bound as int),
{
    let mut targets: Vec<usize> = Vec::new();
    let mut i: usize = 0;
    while i < bound
        invariant
            i <= bound,
            lists_targets(targets@, player_idx, i as int),
        decreases bound - i,
    {
        let local = match player_idx {
            Some(p) => p == i,
            None => false,
        };
        let ghost before = targets@;
        if !local {
            targets.push(i);
        }
        proof {
            assert forall|x: usize| x < i + 1 && player_idx != Some(x) implies targets@.contains(x) by {
                if x < i {
                    assert(before.contains(x));
                    let j = choose|j: int| 0 <= j < before.len() && before[j] == x;
                    assert(targets@[j] == x);
                } else {
                    assert(targets@[targets@.len() - 1] == i);
                }
            }
        }
        i += 1;
    }
    targets
}


/// Both filters of a non-empty history take its last input or leave it,
/// after filtering the rest.
proof fn lemma_filters_last(h: Seq<Movement>, ack: usize)
    requires
        h.len() > 0,
    ensures
        acknowledged(h, ack) == (if h.last().id <= ack {
            acknowledged(h.drop_last(), ack).push(h.last())
        } else {
            acknowledged(h.drop_last(), ack)
        }),
        unacknowledged(h, ack) == (if h.last().id > ack {
            unacknowledged(h.drop_last(), ack).push(h.last())
        } else {
            unacknowledged(h.drop_last(), ack)
        }),
{
    reveal(Seq::filter);
}

/// A history whose ids are all at most `ack` has nothing left unconfirmed.
proof fn lemma_none_unacknowledged(h: Seq<Movement>, ack: usize)
    requires
        forall|i: int| 0 <= i < h.len() ==> h[i].id <= ack,
    ensures
        unacknowledged(h, ack) == Seq::<Movement>::empty(),
    decreases h.len(),
{
    if h.len() > 0 {
        let t = h.drop_last();
        assert forall|i: int| 0 <= i < t.len() implies t[i].id <= ack by {
            assert(t[i] == h[i]);
        }
        lemma_none_unacknowledged(t, ack);
        lemma_filters_last(h, ack);
    } else {
        reveal(Seq::filter);
    }
}

/// Dropping the last input of a strictly ascending history leaves it
/// strictly ascending, with all ids below the last one.
proof fn lemma_ascending_drop_last(h: Seq<Movement>)
    requires
        ids_ascending(h),
        h.len() > 0,
    ensures
        ids_ascending(h.drop_last()),
        forall|i: int| 0 <= i < h.len() - 1 ==> #[trigger] h[i].id < h.last().id,
{
    reveal(ids_ascending);
    let t = h.drop_last();
    assert forall|i: int, j: int| 0 <= i < j < t.len() implies t[i].id < t[j].id by {
        assert(t[i] == h[i] && t[j] == h[j]);
    }
    assert forall|i: int| 0 <= i < t.len() implies t[i].id >= 1 by {
        assert(t[i] == h[i]);
    }
}

/// A strictly ascending history splits at any acknowledgment into the inputs
/// it confirms, a prefix, followed by those it does not, the rest.
proof fn lemma_split_at_ack(h: Seq<Movement>, ack: usize)
    requires
        ids_ascending(h),
    ensures
        acknowledged(h, ack) == h.subrange(0, acknowledged(h, ack).len() as int),
        unacknowledged(h, ack) == h.subrange(acknowledged(h, ack).len() as int, h.len() as int),
    decreases h.len(),
{
    if h.len() > 0 {
        let t = h.drop_last();
        let x = h.last();
        lemma_ascending_drop_last(h);
        lemma_split_at_ack(t, ack);
        lemma_filters_last(h, ack);
        let a = acknowledged(t, ack);
        let u = unacknowledged(t, ack);
        if x.id > ack {
            assert(a =~= h.subrange(0, a.len() as int));
            assert(u.push(x) =~= h.subrange(a.len() as int, h.len() as int));
        } else {
            assert forall|i: int| 0 <= i < t.len() implies t[i].id <= ack by {
                assert(t[i] == h[i]);
            }
            lemma_none_unacknowledged(t, ack);
            assert(a.len() == t.len());
            assert(a.push(x) =~= h);
            assert(u =~= h.subrange(h.len() as int, h.len() as int));
        }
    } else {
        reveal(Seq::filter);
        assert(acknowledged(h, ack) =~= h.subrange(0, 0));
        assert(unacknowledged(h, ack) =~= h.subrange(0, 0));
    }
}

/// What an acknowledgment leaves of a strictly ascending history is a suffix
/// of it, and strictly ascending too.
proof fn lemma_unacknowledged_suffix(h: Seq<Movement>, ack: usize)
    requires
        ids_ascending(h),
    ensures
        unacknowledged(h, ack) == h.subrange(h.len() - unacknowledged(h, ack).len(), h.len() as int),
        ids_ascending(unacknowledged(h, ack)),
{
    lemma_split_at_ack(h, ack);
    let k = acknowledged(h, ack).len() as int;
    let v = h.subrange(k, h.len() as int);
    reveal(ids_ascending);
    assert forall|i: int, j: int| 0 <= i < j < v.len() implies v[i].id < v[j].id by {
        assert(v[i] == h[k + i] && v[j] == h[k + j]);
    }
    assert forall|i: int| 0 <= i < v.len() implies v[i].id >= 1 by {
        assert(v[i] == h[k + i]);
    }
}


/// Running the steps of `a` and then those of `b` is running those of `a + b`.
proof fn lemma_simulate_concat<S>(
    step: spec_fn(S, (i8, i8)) -> S,
    s: S,
    a: Seq<(i8, i8)>,
    b: Seq<(i8, i8)>,
)
    ensures
        simulate(step, s, a + b) == simulate(step, simulate(step, s, a), b),
    decreases b.len(),
{
    if b.len() == 0 {
        assert(a + b =~= a);
    } else {
        assert((a + b).drop_last() =~= a + b.drop_last());
        assert((a + b).last() == b.last());
        lemma_simulate_concat(step, s, a, b.drop_last());
    }
}

/// Acknowledgment trimming: after an acknowledgment `ack`, no input with an
/// id up to `ack` remains, and every input with a greater id remains, in the
/// order the history had. In a strictly ascending history the confirmed
/// inputs are a prefix, and what remains is exactly the rest.
pub proof fn lemma_trim_keeps_order(h: Seq<Movement>, ack: usize)
    requires
        ids_ascending(h),
    ensures
        forall|i: int| 0 <= i < unacknowledged(h, ack).len() ==> #[trigger] unacknowledged(h, ack)[i].id > ack,
        unacknowledged(h, ack) == h.subrange(h.len() - unacknowledged(h, ack).len(), h.len() as int),
        forall|i: int|
            0 <= i < h.len() - unacknowledged(h, ack).len() ==> #[trigger] h[i].id <= ack,
{
    lemma_split_at_ack(h, ack);
    let a = acknowledged(h, ack);
    let u = unacknowledged(h, ack);
    assert forall|i: int| 0 <= i < u.len() implies #[trigger] u[i].id > ack by {
        h.lemma_filter_pred(|m: Movement| m.id > ack, i);
    }
    assert forall|i: int| 0 <= i < h.len() - u.len() implies #[trigger] h[i].id <= ack by {
        assert(a[i] == h[i]);
        h.lemma_filter_pred(|m: Movement| m.id <= ack, i);
    }
}

/// Reconciliation converges: starting from the state in which the server has
/// applied the acknowledged inputs, replaying the unacknowledged ones gives
/// the same state as applying the whole history in order, for any
/// deterministic step function. The replay steps that a frame plans for the
/// local player carry exactly those unacknowledged directions, in order.
pub proof fn lemma_replay_converges<S>(
    step: spec_fn(S, (i8, i8)) -> S,
    s0: S,
    h: Seq<Movement>,
    ack: usize,
    player: usize,
)
    requires
        ids_ascending(h),
    ensures
        simulate(step, simulate(step, s0, dirs_of(acknowledged(h, ack))), dirs_of(unacknowledged(h, ack)))
            == simulate(step, s0, dirs_of(h)),
        replay_steps(Some(player), unacknowledged(h, ack)).map_values(|st: Step| st.dir)
            == dirs_of(unacknowledged(h, ack)),
        forall|i: int|
            0 <= i < replay_steps(Some(player), unacknowledged(h, ack)).len()
                ==> #[trigger] replay_steps(Some(player), unacknowledged(h, ack))[i].player == player,
{
    lemma_split_at_ack(h, ack);
    let a = acknowledged(h, ack);
    let u = unacknowledged(h, ack);
    assert(dirs_of(h) =~= dirs_of(a) + dirs_of(u)) by {
        assert forall|i: int| 0 <= i < h.len() implies dirs_of(h)[i] == (dirs_of(a) + dirs_of(u))[i] by {
            if i < a.len() {
                assert(a[i] == h[i]);
            } else {
                assert(u[i - a.len()] == h[i]);
            }
        }
    }
    lemma_simulate_concat(step, s0, dirs_of(a), dirs_of(u));
    assert(replay_steps(Some(player), u).map_values(|st: Step| st.dir) =~= dirs_of(u));
}

/// Interpolation bounds: the factor lies between zero and one; it is one
/// once the elapsed time reaches the tick interval, and zero when no time
/// has elapsed since the latest snapshot (with a measured, non-zero interval).
pub proof fn lemma_interpolation_bounds(elapsed: u64, tick_time: u64)
    ensures
        factor_of(elapsed, tick_time).den > 0,
        factor_of(elapsed, tick_time).num <= factor_of(elapsed, tick_time).den,
        elapsed >= tick_time ==> factor_of(elapsed, tick_time).num == factor_of(elapsed, tick_time).den,
        elapsed == 0 && tick_time > 0 ==> factor_of(elapsed, tick_time).num == 0,
{
}

/// Interpolation never touches the local player: it is not among the targets.
pub proof fn lemma_local_never_interpolated(targets: Seq<usize>, player: usize, bound: int)
    requires
        lists_targets(targets, Some(player), bound),
    ensures
        !targets.contains(player),
{
}

} // verus!
