//! The session controller's decision logic and the per-session engine
//! instance model.
//!
//! The controller owns the session table and the opening book. Each decoded
//! command maps to a new table state plus a list of [`Action`]s; the
//! unverified shell performs the actions (spawning, writing to and killing
//! engine subprocesses, emitting response frames) in order.

use crate::info_parser::Info;
use crate::info_parser::spec_parse_info;
use crate::messages::BOOK_DEPTH;
use crate::messages::FindMoveMessage;
use crate::messages::FindMoveResponse;
use crate::messages::Message;
use crate::messages::SessionEndedMessage;
use crate::messages::StopMessage;
use crate::opening::Move;
use crate::opening::Openings;
use rand::Rng;
use std::collections::HashMap;
use vstd::prelude::*;

verus! {

broadcast use vstd::std_specs::hash::group_hash_axioms;

#[verifier::external_type_specification]
#[verifier::external_body]
pub struct ExThreadRng(rand::rngs::ThreadRng);

/// Relies on rand::thread_rng: a handle to the thread-local random
/// generator. Nothing is assumed of the handle.
#[verifier::external_body]
fn fresh_rng() -> rand::rngs::ThreadRng {
    rand::thread_rng()
}

/// Relies on rand::Rng::gen_range on the range `0..n`: it returns a value
/// of that half-open range, and panics only on an empty range, which the
/// precondition rules out. Which value comes back is never assumed.
#[verifier::external_body]
fn rand_below(rng: &mut rand::rngs::ThreadRng, n: usize) -> (r: usize)
    requires
        n >= 1,
    ensures
        r < n,
{
    rng.gen_range(0..n)
}

/// What the position resolver derives from a client's game log: the
/// position's 64-bit hash and its board-diagram string.
pub struct PositionInfo {
    pub hash: u64,
    pub fen: String,
}

/// The model of one per-session engine instance: its immutable session id
/// and the most recently assigned request id (the shared cell the
/// instance's background reader tags responses with).
pub struct InstanceState {
    pub session_id: usize,
    pub request_id: usize,
}

impl InstanceState {
    pub fn new(session_id: usize, request_id: usize) -> (r: Self)
        ensures
            r == (InstanceState { session_id, request_id }),
    {
        InstanceState { session_id, request_id }
    }

    /// Overwrites the request id the next responses are tagged with.
    pub fn set_request_id(&mut self, request_id: usize)
        ensures
            *final(self) == (InstanceState { request_id, ..*old(self) }),
    {
        self.request_id = request_id;
    }

    /// The background reader's decision for one line of engine output: a
    /// response tagged with this instance's ids and carrying the first
    /// principal-variation move, or nothing for a line that is no
    /// search-progress record.
    pub fn handle_line(&self, line: &str) -> (r: Option<FindMoveResponse>)
        ensures
            match spec_parse_info(line@) {
                Some(v) => r matches Some(resp) && resp.mv@ == v.pv[0] && resp.request_id
                    == self.request_id && resp.session_id == self.session_id && resp.depth
                    == v.depth,
                None => r is None,
            },
    {
        match Info::parse_info(line) {
            Some(mut info) => {
                let mv = info.pv.remove(0);
                Some(
                    FindMoveResponse {
                        mv,
                        request_id: self.request_id,
                        session_id: self.session_id,
                        depth: info.depth,
                    },
                )
            },
            None => None,
        }
    }
}

/// One piece of outside work a command decision asks the shell to do.
pub enum Action {
    /// Write `stop` to the session's running engine.
    SendStop { session_id: usize },
    /// Send one response frame to the client.
    EmitResponse { response: FindMoveResponse },
    /// Start a search: spawn the engine first when `spawn` is set, store
    /// `request_id` in the instance's shared cell, then write the position
    /// and `go`.
    StartSearch { session_id: usize, request_id: usize, fen: String, spawn: bool },
    /// Kill the session's engine process and reap it.
    KillEngine { session_id: usize },
}

/// A book move worth preferring: weight above 100.
pub open spec fn is_good(m: Move) -> bool {
    m.weight > 100
}

/// Which move tokens the selection policy admits: when any good move
/// exists the token must be one of the good moves, with no cap; otherwise
/// it must come from the top `min(3, len)` entries of the ordered list.
pub open spec fn policy_allows_token(ms: Seq<Move>, mv: Seq<char>) -> bool {
    if exists|i: int| 0 <= i < ms.len() && is_good(#[trigger] ms[i]) {
        exists|i: int| #![trigger ms[i]] 0 <= i < ms.len() && ms[i].mv@ == mv && is_good(ms[i])
    } else {
        exists|i: int| #![trigger ms[i]]
            0 <= i < (if ms.len() < 3 {
                ms.len() as int
            } else {
                3int
            }) && ms[i].mv@ == mv
    }
}

/// Picks the index of a candidate as the selection policy directs: a
/// uniform draw among the good moves, or among the top `min(3, len)` when
/// no move is good.
fn pick_candidate(rng: &mut rand::rngs::ThreadRng, moves: &Vec<Move>) -> (r: usize)
    requires
        moves@.len() >= 1,
    ensures
        r < moves@.len(),
        policy_allows_token(moves@, moves@[r as int].mv@),
{
    let mut good: Vec<usize> = Vec::new();
    let mut i: usize = 0;
    while i < moves.len()
        invariant
            i <= moves@.len(),
            forall|t: int| #![trigger good@[t]]
                0 <= t < good@.len() ==> good@[t] < i && is_good(moves@[good@[t] as int]),
            good@.len() == 0 ==> forall|j: int| 0 <= j < i ==> !is_good(#[trigger] moves@[j]),
        decreases moves@.len() - i,
    {
        if moves[i].weight > 100 {
            good.push(i);
        }
        i += 1;
    }
    if good.len() > 0 {
        let r = rand_below(rng, good.len());
        let idx = good[r];
        proof {
            assert(is_good(moves@[idx as int]));
        }
        idx
    } else {
        let cap: usize = if moves.len() < 3 {
            moves.len()
        } else {
            3
        };
        let r = rand_below(rng, cap);
        proof {
            assert(forall|j: int| 0 <= j < moves@.len() ==> !is_good(#[trigger] moves@[j]));
        }
        r
    }
}

/// The session controller: the session table, the opening book, and the
/// random generator the selection policy draws from.
pub struct Controller {
    instances: HashMap<usize, InstanceState>,
    book: Openings,
    rng: rand::rngs::ThreadRng,
}

/// What handling a `Stop` leaves behind: nothing changes, and a stop
/// command goes to the session's engine exactly when one exists.
pub open spec fn stop_post(pre: Controller, post: Controller, actions: Seq<Action>, sid: usize) -> bool {
    &&& post.sessions() == pre.sessions()
    &&& post.book_entries() == pre.book_entries()
    &&& if pre.sessions().contains_key(sid) {
        actions == seq![(Action::SendStop { session_id: sid })]
    } else {
        actions == Seq::<Action>::empty()
    }
}

/// What handling a `SessionEnded` leaves behind: the session's instance is
/// gone, and its engine is killed exactly when an instance existed — so a
/// repeated `SessionEnded`, or one for an unknown session, does nothing.
pub open spec fn session_ended_post(
    pre: Controller,
    post: Controller,
    actions: Seq<Action>,
    sid: usize,
) -> bool {
    &&& post.sessions() == pre.sessions().remove(sid)
    &&& post.book_entries() == pre.book_entries()
    &&& if pre.sessions().contains_key(sid) {
        actions == seq![(Action::KillEngine { session_id: sid })]
    } else {
        actions == Seq::<Action>::empty()
    }
}

/// What handling a `FindMove` leaves behind. An existing instance is told
/// to stop first, unconditionally. On a book hit one response with the
/// sentinel book depth and a policy-approved move is emitted and the table
/// is untouched; on a miss the session's instance exists afterwards (spawned
/// exactly when the session was unseen), carries the new request id, and a
/// search is started on the resolved position.
pub open spec fn find_move_post(
    pre: Controller,
    post: Controller,
    actions: Seq<Action>,
    sid: usize,
    rid: usize,
    hash: u64,
    fen: Seq<char>,
) -> bool {
    let had = pre.sessions().contains_key(sid);
    let hit = pre.book_entries().contains_key(hash);
    &&& post.book_entries() == pre.book_entries()
    &&& actions.len() == (if had {
        2int
    } else {
        1int
    })
    &&& (had ==> actions[0] == (Action::SendStop { session_id: sid }))
    &&& (hit ==> {
        &&& post.sessions() == pre.sessions()
        &&& actions.last() matches Action::EmitResponse { response } && response.session_id == sid
            && response.request_id == rid && response.depth == BOOK_DEPTH && policy_allows_token(
            pre.book_entries()[hash],
            response.mv@,
        )
    })
    &&& (!hit ==> {
        &&& post.sessions() == pre.sessions().insert(
            sid,
            (InstanceState { session_id: sid, request_id: rid }),
        )
        &&& actions.last() matches Action::StartSearch { session_id, request_id, fen: f, spawn }
            && session_id == sid && request_id == rid && f@ == fen && spawn == !had
    })
}

/// Ending a session is idempotent: after a `SessionEnded` removed the
/// instance, a second `SessionEnded` for the same session changes nothing
/// and kills nothing.
pub proof fn lemma_session_ended_idempotent(
    pre: Controller,
    mid: Controller,
    post: Controller,
    first: Seq<Action>,
    second: Seq<Action>,
    sid: usize,
)
    requires
        session_ended_post(pre, mid, first, sid),
        session_ended_post(mid, post, second, sid),
    ensures
        post.sessions() == mid.sessions(),
        second == Seq::<Action>::empty(),
{
    assert(!mid.sessions().contains_key(sid));
    assert(mid.sessions().remove(sid) =~= mid.sessions());
}

/// A `FindMove` for an unseen session creates exactly one instance when the
/// book misses — the table becomes the old table plus that session — and
/// creates none on a book hit; either way no stop is issued.
pub proof fn lemma_find_move_unseen(
    pre: Controller,
    post: Controller,
    actions: Seq<Action>,
    sid: usize,
    rid: usize,
    hash: u64,
    fen: Seq<char>,
)
    requires
        find_move_post(pre, post, actions, sid, rid, hash, fen),
        !pre.sessions().contains_key(sid),
    ensures
        actions.len() == 1,
        !pre.book_entries().contains_key(hash) ==> post.sessions() == pre.sessions().insert(
            sid,
            (InstanceState { session_id: sid, request_id: rid }),
        ),
        pre.book_entries().contains_key(hash) ==> post.sessions() == pre.sessions(),
{
}

/// A second `FindMove` for a session with a live instance issues a stop to
/// that instance before anything else; on a book miss the new search comes
/// after it, on the reused instance.
pub proof fn lemma_repeat_find_move_stops_first(
    pre: Controller,
    post: Controller,
    actions: Seq<Action>,
    sid: usize,
    rid: usize,
    hash: u64,
    fen: Seq<char>,
)
    requires
        find_move_post(pre, post, actions, sid, rid, hash, fen),
        pre.sessions().contains_key(sid),
    ensures
        actions.len() == 2,
        actions[0] == (Action::SendStop { session_id: sid }),
        !pre.book_entries().contains_key(hash) ==> (actions[1] matches Action::StartSearch {
            session_id,
            request_id,
            fen: f,
            spawn,
        } && session_id == sid && request_id == rid && !spawn),
{
}

impl Controller {
    /// The session table.
    pub closed spec fn sessions(self) -> Map<usize, InstanceState> {
        self.instances@
    }

    /// The opening book the controller consults.
    pub closed spec fn spec_book(self) -> Openings {
        self.book
    }

    /// The book's entries.
    pub open spec fn book_entries(self) -> Map<u64, Seq<Move>> {
        self.spec_book().entries()
    }

    /// The book is well formed and every instance sits under its own
    /// session id.
    pub open spec fn wf(self) -> bool {
        &&& self.spec_book().wf()
        &&& forall|sid: usize| #[trigger]
            self.sessions().contains_key(sid) ==> self.sessions()[sid].session_id == sid
    }

    pub fn new(book: Openings) -> (r: Self)
        requires
            book.wf(),
        ensures
            r.wf(),
            r.sessions() == Map::<usize, InstanceState>::empty(),
            r.book_entries() == book.entries(),
    {
        Controller { instances: HashMap::new(), book, rng: fresh_rng() }
    }

    /// Decides one decoded command, already put through the position
    /// resolver: the table moves to its next state and the returned actions
    /// tell the shell what outside work to do, in order.
    pub fn handle_message(&mut self, message: Message, resolution: PositionInfo) -> (actions: Vec<
        Action,
    >)
        requires
            old(self).wf(),
        ensures
            final(self).wf(),
            match message {
                Message::FIND_MOVE(m) => find_move_post(
                    *old(self),
                    *final(self),
                    actions@,
                    m.session_id,
                    m.request_id,
                    resolution.hash,
                    resolution.fen@,
                ),
                Message::SESSION_ENDED(m) => session_ended_post(
                    *old(self),
                    *final(self),
                    actions@,
                    m.session_id,
                ),
                Message::STOP(m) => stop_post(*old(self), *final(self), actions@, m.session_id),
            },
    {
        match message {
            Message::FIND_MOVE(m) => self.find_move(m, resolution),
            Message::SESSION_ENDED(m) => self.kill_instance(m),
            Message::STOP(m) => self.stop(m),
        }
    }

    fn find_move(&mut self, message: FindMoveMessage, resolution: PositionInfo) -> (actions: Vec<
        Action,
    >)
        requires
            old(self).wf(),
        ensures
            final(self).wf(),
            find_move_post(
                *old(self),
                *final(self),
                actions@,
                message.session_id,
                message.request_id,
                resolution.hash,
                resolution.fen@,
            ),
    {
        let sid = message.session_id;
        let mut actions: Vec<Action> = Vec::new();
        let had = self.instances.contains_key(&sid);
        if had {
            actions.push(Action::SendStop { session_id: sid });
        }
        match self.book.get_moves(&resolution.hash) {
            Some(moves) => {
                let idx = pick_candidate(&mut self.rng, moves);
                let mv = moves[idx].mv.clone();
                let response = FindMoveResponse {
                    mv,
                    request_id: message.request_id,
                    session_id: sid,
                    depth: BOOK_DEPTH,
                };
                actions.push(Action::EmitResponse { response });
                proof {
                    assert(self.sessions() == old(self).sessions());
                    assert(self.wf());
                }
            },
            None => {
                match self.instances.remove(&sid) {
                    Some(mut inst) => {
                        proof {
                            assert(old(self).sessions().contains_key(sid));
                            assert(inst == old(self).sessions()[sid]);
                            assert(inst.session_id == sid);
                        }
                        inst.set_request_id(message.request_id);
                        self.instances.insert(sid, inst);
                    },
                    None => {
                        self.instances.insert(sid, InstanceState::new(sid, message.request_id));
                    },
                }
                proof {
                    assert(self.instances@ =~= old(self).sessions().insert(
                        sid,
                        (InstanceState { session_id: sid, request_id: message.request_id }),
                    ));
                    assert forall|s: usize| #[trigger]
                        self.sessions().contains_key(s) implies self.sessions()[s].session_id
                        == s by {
                        if s != sid {
                            assert(old(self).sessions().contains_key(s));
                        }
                    }
                }
                actions.push(
                    Action::StartSearch {
                        session_id: sid,
                        request_id: message.request_id,
                        fen: resolution.fen,
                        spawn: !had,
                    },
                );
            },
        }
        actions
    }

    fn kill_instance(&mut self, message: SessionEndedMessage) -> (actions: Vec<Action>)
        requires
            old(self).wf(),
        ensures
            final(self).wf(),
            session_ended_post(*old(self), *final(self), actions@, message.session_id),
    {
        let mut actions: Vec<Action> = Vec::new();
        match self.instances.remove(&message.session_id) {
            Some(_inst) => {
                actions.push(Action::KillEngine { session_id: message.session_id });
                assert(actions@ =~= seq![(Action::KillEngine { session_id: message.session_id })]);
            },
            None => {
                proof {
                    assert(self.instances@ =~= old(self).sessions().remove(message.session_id));
                }
            },
        }
        actions
    }

    fn stop(&mut self, message: StopMessage) -> (actions: Vec<Action>)
        requires
            old(self).wf(),
        ensures
            final(self).wf(),
            stop_post(*old(self), *final(self), actions@, message.session_id),
    {
        let mut actions: Vec<Action> = Vec::new();
        if self.instances.contains_key(&message.session_id) {
            actions.push(Action::SendStop { session_id: message.session_id });
            assert(actions@ =~= seq![(Action::SendStop { session_id: message.session_id })]);
        }
        actions
    }
}

} // verus!
