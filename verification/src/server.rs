//! The server's table of players and its tick.
//!
//! Each player is reached through two queues: one that the connection fills
//! with what the client sent, one that the tick fills with what the client
//! is to be sent. The table itself is plain data behind `&mut`; the caller
//! guards it with a lock and paces the ticks.
//!
//! A queue that does not take a packet never fails a tick: the player is
//! left as it was, the packet is offered again on the next tick, and the
//! tick goes on with the others. A player that has disconnected is taken
//! out of the table by whoever learns of it.

use vstd::prelude::*;
use vstd::std_specs::hash::{axiom_spec_keys_iter, group_hash_axioms, spec_keys_iter};
use vstd::std_specs::iter::IteratorSpec;
use crossbeam::channel::{Receiver, Sender};
use std::collections::HashMap;
use crate::error::ProtocolError;
use crate::net::play::clientbound::{
    JoinGame, JoinGameView, Packet as CPacket, PacketView as CPacketView,
};
use crate::net::play::serverbound::Packet as SPacket;
use crate::net::proto::varint::Varint;

verus! {

broadcast use group_hash_axioms;

/// The sending end of a queue of the `crossbeam` crate.
#[verifier::external_type_specification]
#[verifier::external_body]
#[verifier::reject_recursive_types(T)]
pub struct ExSender<T>(crossbeam::channel::Sender<T>);

/// The receiving end of a queue of the `crossbeam` crate.
#[verifier::external_type_specification]
#[verifier::external_body]
#[verifier::reject_recursive_types(T)]
pub struct ExReceiver<T>(crossbeam::channel::Receiver<T>);

/// The time that one tick is given, in milliseconds.
pub const TARGET_MSPT: u64 = 50;

/// The level type that a joining player is told.
pub const LEVEL_TYPE: &'static str = "default";

/// The view distance that a joining player is told.
pub const VIEW_DISTANCE: i32 = 8;

/// The sending end of a player's outbound queue as the table holds it: the
/// `Sender` of the `crossbeam` crate, and with it two records, kept since
/// the end was made: every packet that was offered to the queue through this
/// end, and every one of them that the queue took. Nothing but `send_packet`
/// adds to either record.
#[verifier::external_body]
pub struct Outbound {
    queue: Sender<CPacket>,
}

/// The `Sender` that an end holds.
pub uninterp spec fn queue_of(end: Outbound) -> Sender<CPacket>;

/// The packets that have been offered to the queue through an end since the
/// end was made, in order, whether the queue took them or not.
pub uninterp spec fn offered(end: Outbound) -> Seq<CPacketView>;

/// The packets that the queue has taken from an end since the end was made,
/// in the order in which they were offered.
pub uninterp spec fn taken(end: Outbound) -> Seq<CPacketView>;

/// Makes the end that holds `queue`. Nothing has been offered yet.
#[verifier::external_body]
fn outbound_end(queue: Sender<CPacket>) -> (end: Outbound)
    ensures
        queue_of(end) == queue,
        offered(end) == Seq::<CPacketView>::empty(),
        taken(end) == Seq::<CPacketView>::empty(),
{
    Outbound { queue }
}

/// `Sender::try_send` of the `crossbeam` crate: offers `packet` to the queue
/// and says whether the queue took it. The call never waits. A queue that
/// took the packet has it behind all that it took before; a queue whose
/// receiving end is gone, or that is bounded and full, takes nothing. Which
/// of the two happens, nothing here decides.
#[verifier::external_body]
fn send_packet(end: &mut Outbound, packet: CPacket) -> (took: bool)
    ensures
        queue_of(*final(end)) == queue_of(*old(end)),
        offered(*final(end)) == offered(*old(end)).push(packet@),
        took ==> taken(*final(end)) == taken(*old(end)).push(packet@),
        !took ==> taken(*final(end)) == taken(*old(end)),
{
    match end.queue.try_send(packet) {
        Ok(()) => true,
        Err(_) => false,
    }
}

/// One player as the server holds it.
pub struct PlayerConnection {
    ticks: u32,
    /// What the client sent, for the server to take.
    inbound: Receiver<SPacket>,
    /// What the client is to be sent.
    outbound: Outbound,
}

/// One player as the contracts see it: the ticks it has seen, its two
/// queues, the packets that were offered to its outbound queue, and those
/// of them that the queue took, both in order.
pub struct PlayerView {
    pub ticks: u32,
    pub inbound: Receiver<SPacket>,
    pub outbound: Sender<CPacket>,
    pub offered: Seq<CPacketView>,
    pub sent: Seq<CPacketView>,
}

impl View for PlayerConnection {
    type V = PlayerView;

    closed spec fn view(&self) -> PlayerView {
        PlayerView {
            ticks: self.ticks,
            inbound: self.inbound,
            outbound: queue_of(self.outbound),
            offered: offered(self.outbound),
            sent: taken(self.outbound),
        }
    }
}

/// The table of players, by their identifiers.
pub struct Server {
    players: HashMap<u128, PlayerConnection>,
}

impl View for Server {
    type V = Map<u128, PlayerView>;

    closed spec fn view(&self) -> Map<u128, PlayerView> {
        Map::new(|id: u128| self.players@.contains_key(id), |id: u128| self.players@[id]@)
    }
}

/// The packet that places a player in the world: the fixed world of this server.
pub open spec fn join_game() -> CPacketView {
    CPacketView::JoinGame(
        JoinGameView {
            entity_id: 0,
            gamemode: 1,
            dimension: 0,
            hashed_seed: 0,
            max_players: 0,
            level_type: LEVEL_TYPE@,
            view_dist: VIEW_DISTANCE,
            reduced_debug: false,
            respawn_screen: true,
        },
    )
}

/// A player that has just been registered with its two queues.
pub open spec fn fresh_player(inbound: Receiver<SPacket>, outbound: Sender<CPacket>) -> PlayerView {
    PlayerView { ticks: 0, inbound, outbound, offered: Seq::empty(), sent: Seq::empty() }
}

/// What a player is sent on a tick: the packet that places it in the world
/// as long as it has seen no tick, and nothing once it has.
pub open spec fn due(ticks: u32) -> Seq<CPacketView> {
    if ticks == 0 {
        seq![join_game()]
    } else {
        Seq::empty()
    }
}

/// The count of ticks after one more. It stops at the largest number, so
/// that no count ever comes back to zero.
pub open spec fn next_ticks(ticks: u32) -> u32 {
    if ticks == u32::MAX {
        ticks
    } else {
        (ticks + 1) as u32
    }
}

/// The count of a player after what was due has been offered to its queue:
/// one more where the queue took it, and none where it did not, which
/// leaves the player as it was.
pub open spec fn counted(ticks: u32, took: bool) -> Option<u32> {
    if took {
        Some(next_ticks(ticks))
    } else {
        None
    }
}

/// A player after a tick in which its queue took what was due, or in which
/// nothing was due: it has seen one more tick.
pub open spec fn ticked(p: PlayerView) -> PlayerView {
    PlayerView {
        ticks: next_ticks(p.ticks),
        offered: p.offered + due(p.ticks),
        sent: p.sent + due(p.ticks),
        ..p
    }
}

/// A player after a tick in which its queue did not take what was due: the
/// packet was offered, and the player is otherwise as it was.
pub open spec fn refused(p: PlayerView) -> PlayerView {
    PlayerView { offered: p.offered + due(p.ticks), ..p }
}

/// A player after one tick, given whether its queue took what was due.
/// Where nothing is due there is nothing to refuse.
pub open spec fn after_tick(p: PlayerView, took: bool) -> PlayerView {
    if took || due(p.ticks).len() == 0 {
        ticked(p)
    } else {
        refused(p)
    }
}

/// A player after a run of ticks, given for each whether its queue took
/// what was due.
pub open spec fn after_ticks(p: PlayerView, answers: Seq<bool>) -> PlayerView
    decreases answers.len(),
{
    if answers.len() == 0 {
        p
    } else {
        after_tick(after_ticks(p, answers.drop_last()), answers.last())
    }
}

/// What one tick makes of a table.
///
/// The players are the same: none is added and none is dropped. To every
/// one of them what was due has been offered. A player whose queue took it,
/// or to which nothing was due, has seen one more tick; a player whose queue
/// did not take it is as it was, but for the offer.
pub open spec fn left_by_tick(before: Map<u128, PlayerView>, after: Map<u128, PlayerView>) -> bool {
    &&& forall|id: u128| #[trigger] after.contains_key(id) <==> before.contains_key(id)
    &&& forall|id: u128| #[trigger]
        before.contains_key(id) ==> after[id] == after_tick(before[id], true) || after[id]
            == after_tick(before[id], false)
}

/// How long to sleep after a tick that took `elapsed_ms`: the rest of the
/// tick's time, or not at all where the tick has used it up.
pub fn sleep_millis(elapsed_ms: u128) -> (res: Option<u64>)
    ensures
        elapsed_ms < TARGET_MSPT ==> res == Some((TARGET_MSPT - elapsed_ms) as u64),
        elapsed_ms >= TARGET_MSPT ==> res is None,
{
    if elapsed_ms < TARGET_MSPT as u128 {
        Some(TARGET_MSPT - elapsed_ms as u64)
    } else {
        None
    }
}

/// The packet to hand to the queue of a player that has seen `ticks`
/// ticks: exactly what is due to it, if anything is.
pub fn due_packet(ticks: u32) -> (res: Option<CPacket>)
    ensures
        match res {
            Some(packet) => due(ticks) == seq![packet@],
            None => due(ticks) == Seq::<CPacketView>::empty(),
        },
{
    if ticks == 0 {
        Some(
            CPacket::JoinGame(
                JoinGame {
                    entity_id: 0,
                    gamemode: 1,
                    dimension: 0,
                    hashed_seed: 0,
                    max_players: 0,
                    level_type: LEVEL_TYPE.to_owned(),
                    view_dist: Varint(VIEW_DISTANCE),
                    reduced_debug: false,
                    respawn_screen: true,
                },
            ),
        )
    } else {
        None
    }
}

/// The count of a player once what was due has been offered to its queue.
/// `took` is the queue's answer, and is `true` where nothing was due.
pub fn after_send(ticks: u32, took: bool) -> (res: Option<u32>)
    ensures
        res == counted(ticks, took),
{
    if took {
        if ticks < u32::MAX {
            Some(ticks + 1)
        } else {
            Some(ticks)
        }
    } else {
        None
    }
}

impl PlayerConnection {
    /// One tick of this player, and whether it counted. What is due is
    /// offered to the outbound queue, and the queue's answer decides: a
    /// player whose queue took it, or to which nothing was due, has seen one
    /// more tick; a player whose queue did not take it is left as it was.
    fn tick(&mut self) -> (took: bool)
        ensures
            final(self)@ == after_tick(old(self)@, took),
            due(old(self)@.ticks).len() == 0 ==> took,
    {
        let took = match due_packet(self.ticks) {
            Some(packet) => send_packet(&mut self.outbound, packet),
            None => true,
        };
        proof {
            assert(offered(self.outbound) =~= offered(old(self).outbound) + due(old(self).ticks));
            if took {
                assert(taken(self.outbound) =~= taken(old(self).outbound) + due(
                    old(self).ticks,
                ));
            }
        }
        match after_send(self.ticks, took) {
            Some(ticks) => {
                self.ticks = ticks;
            },
            None => {},
        }
        took
    }
}

impl Server {
    /// A table without players.
    pub fn new() -> (s: Self)
        ensures
            s@ == Map::<u128, PlayerView>::empty(),
    {
        let s = Server { players: HashMap::new() };
        proof {
            assert(s@ =~= Map::<u128, PlayerView>::empty());
        }
        s
    }

    /// The number of players in the table.
    pub fn player_count(&self) -> (n: usize)
        ensures
            n == self@.dom().len(),
    {
        proof {
            assert(self@.dom() =~= self.players@.dom());
        }
        self.players.len()
    }

    /// The ticks that the player `uuid` has seen, if it is in the table.
    pub fn ticks_of(&self, uuid: u128) -> (res: Option<u32>)
        ensures
            match res {
                Some(ticks) => self@.contains_key(uuid) && ticks == self@[uuid].ticks,
                None => !self@.contains_key(uuid),
            },
    {
        match self.players.get(&uuid) {
            Some(player) => Some(player.ticks),
            None => None,
        }
    }

    /// Registers a player under `uuid` with its two queues. A player already
    /// registered under `uuid` is replaced.
    pub fn add_player(&mut self, uuid: u128, inbound: Receiver<SPacket>, outbound: Sender<CPacket>)
        ensures
            final(self)@ == old(self)@.insert(uuid, fresh_player(inbound, outbound)),
    {
        let conn = PlayerConnection { ticks: 0, inbound, outbound: outbound_end(outbound) };
        proof {
            assert(conn@ == fresh_player(inbound, outbound));
        }
        let _ = self.players.insert(uuid, conn);
        proof {
            assert(self@ =~= old(self)@.insert(uuid, fresh_player(inbound, outbound)));
        }
    }

    /// Takes the player `uuid` out of the table, as on its disconnect. The
    /// other players are not touched; a player that is not there is not missed.
    pub fn remove_player(&mut self, uuid: u128)
        ensures
            final(self)@ == old(self)@.remove(uuid),
    {
        let _ = self.players.remove(&uuid);
        proof {
            assert(self@ =~= old(self)@.remove(uuid));
        }
    }

    /// The identifiers of the players in the table, each once.
    fn ids(&self) -> (ids: Vec<u128>)
        ensures
            ids@.no_duplicates(),
            ids@.to_set() == self@.dom(),
    {
        let mut ids: Vec<u128> = Vec::new();
        proof {
            axiom_spec_keys_iter(&self.players);
        }
        for id in it: self.players.keys()
            invariant
                it.seq() == spec_keys_iter(&self.players).remaining(),
                ids@ == it.seq().take(it.index() as int).unref(),
        {
            ids.push(*id);
        }
        proof {
            let all = spec_keys_iter(&self.players).remaining();
            assert(all.take(all.len() as int) =~= all);
            assert(self@.dom() =~= self.players@.dom());
        }
        ids
    }

    /// One tick: every player of the table once. What is due to a player is
    /// offered to its queue. A queue that does not take it does not fail
    /// the tick and does not touch the other players: that player is left
    /// as it was, and is offered the packet again on the next tick. A tick
    /// never fails and never asks the loop to stop.
    pub fn tick(&mut self) -> (res: Result<bool, ProtocolError>)
        ensures
            res == Ok::<bool, ProtocolError>(false),
            left_by_tick(old(self)@, final(self)@),
    {
        let ids = self.ids();
        let mut i: usize = 0;
        while i < ids.len()
            invariant
                i <= ids.len(),
                ids@.no_duplicates(),
                ids@.to_set() == old(self)@.dom(),
                forall|id: u128| #[trigger] self@.contains_key(id) <==> old(self)@.contains_key(id),
                forall|j: int|
                    0 <= j < i ==> self@[#[trigger] ids@[j]] == after_tick(
                        old(self)@[ids@[j]],
                        true,
                    ) || self@[ids@[j]] == after_tick(old(self)@[ids@[j]], false),
                forall|j: int|
                    i <= j < ids.len() ==> self@[#[trigger] ids@[j]] == old(self)@[ids@[j]],
            decreases ids.len() - i,
        {
            let id = ids[i];
            let ghost before = self@;
            proof {
                assert(ids@.to_set().contains(ids@[i as int]));
                assert(before.contains_key(id));
            }
            match self.players.remove(&id) {
                Some(mut conn) => {
                    let took = conn.tick();
                    let _ = self.players.insert(id, conn);
                    proof {
                        assert(self@ =~= before.insert(id, after_tick(before[id], took)));
                    }
                },
                None => {},
            }
            proof {
                assert forall|j: int| 0 <= j < ids.len() && j != i implies ids@[j] != id by {
                    assert(ids@[i as int] == id);
                }
            }
            i = i + 1;
        }
        proof {
            assert forall|id: u128| #[trigger] old(self)@.contains_key(id) implies self@[id]
                == after_tick(old(self)@[id], true) || self@[id] == after_tick(
                old(self)@[id],
                false,
            ) by {
                assert(ids@.to_set().contains(id));
                assert(ids@.contains(id));
                let j = choose|j: int| 0 <= j < ids.len() && ids@[j] == id;
                assert(self@[ids@[j]] == after_tick(old(self)@[ids@[j]], true) || self@[ids@[j]]
                    == after_tick(old(self)@[ids@[j]], false));
            }
        }
        Ok(false)
    }
}

/// A tick neither adds nor drops a player, whatever the queues answer.
pub proof fn lemma_tick_keeps_players(before: Map<u128, PlayerView>, after: Map<u128, PlayerView>)
    requires
        left_by_tick(before, after),
    ensures
        after.dom() == before.dom(),
{
    assert(after.dom() =~= before.dom());
}

/// A player that has seen no tick is offered, on a tick, the packet that
/// places it in the world, whatever becomes of the other players. Where its
/// queue took the packet, the player has seen one tick and its queue has
/// taken that packet behind what it had taken before; where not, the player
/// has still seen no tick and its queue has taken nothing more.
pub proof fn lemma_first_tick(
    before: Map<u128, PlayerView>,
    after: Map<u128, PlayerView>,
    id: u128,
)
    requires
        left_by_tick(before, after),
        before.contains_key(id),
        before[id].ticks == 0,
    ensures
        after.contains_key(id),
        after[id].offered == before[id].offered.push(join_game()),
        after[id].outbound == before[id].outbound,
        after[id].inbound == before[id].inbound,
        (after[id].ticks == 1 && after[id].sent == before[id].sent.push(join_game())) || (
        after[id].ticks == 0 && after[id].sent == before[id].sent),
{
    assert(before[id].offered + due(0) =~= before[id].offered.push(join_game()));
    assert(before[id].sent + due(0) =~= before[id].sent.push(join_game()));
}

/// A player that has seen a tick before is sent nothing on any later tick,
/// whatever becomes of the other players: nothing is offered to its queue,
/// its queue has taken what it had taken before, and its count has gone up
/// by one.
pub proof fn lemma_later_tick(
    before: Map<u128, PlayerView>,
    after: Map<u128, PlayerView>,
    id: u128,
)
    requires
        left_by_tick(before, after),
        before.contains_key(id),
        before[id].ticks >= 1,
    ensures
        after.contains_key(id),
        after[id].offered == before[id].offered,
        after[id].sent == before[id].sent,
        after[id].ticks == next_ticks(before[id].ticks),
        after[id].ticks >= 1,
        after[id].outbound == before[id].outbound,
        after[id].inbound == before[id].inbound,
{
    assert(due(before[id].ticks).len() == 0);
    assert(before[id].offered + due(before[id].ticks) =~= before[id].offered);
    assert(before[id].sent + due(before[id].ticks) =~= before[id].sent);
}

/// Whatever its queue answers over any run of ticks, a player registered
/// afresh is sent the packet that places it in the world at most once, and
/// nothing else: as long as the queue has taken nothing the player has seen
/// no tick, and from the tick on which the queue takes the packet the
/// player counts its ticks and its queue has taken that one packet.
pub proof fn lemma_join_game_once(
    inbound: Receiver<SPacket>,
    outbound: Sender<CPacket>,
    answers: Seq<bool>,
)
    ensures
        ({
            let p = after_ticks(fresh_player(inbound, outbound), answers);
            &&& p.ticks == 0 <==> p.sent == Seq::<CPacketView>::empty()
            &&& p.ticks >= 1 <==> p.sent == seq![join_game()]
            &&& (exists|k: int| 0 <= k < answers.len() && answers[k]) <==> p.ticks >= 1
        }),
    decreases answers.len(),
{
    let fresh = fresh_player(inbound, outbound);
    if answers.len() > 0 {
        let earlier = answers.drop_last();
        lemma_join_game_once(inbound, outbound, earlier);
        let q = after_ticks(fresh, earlier);
        let p = after_tick(q, answers.last());
        assert(q.sent + due(q.ticks) =~= if q.ticks == 0 {
            seq![join_game()]
        } else {
            q.sent
        });
        assert(seq![join_game()].len() == 1);
        if exists|k: int| 0 <= k < answers.len() && answers[k] {
            let k = choose|k: int| 0 <= k < answers.len() && answers[k];
            if k < earlier.len() {
                assert(earlier[k]);
            }
        }
        if exists|k: int| 0 <= k < earlier.len() && earlier[k] {
            let k = choose|k: int| 0 <= k < earlier.len() && earlier[k];
            assert(answers[k]);
        }
        if answers.last() {
            assert(answers[answers.len() - 1]);
        }
    } else {
        assert(seq![join_game()].len() == 1);
    }
}

} // verus!
