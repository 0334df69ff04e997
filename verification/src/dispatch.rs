//! The order of work in dispatching one request.
//!
//! A request is dispatched by connecting, performing the application handshake, spawning
//! the driver that the handshake returns and sending the request through the session. The
//! work itself is done elsewhere; [`Dispatch`] decides, from the outcome of each piece of
//! work, what comes next.

use vstd::prelude::*;

verus! {

/// The work that is under way.
#[derive(Clone, Copy, Debug, PartialEq, Eq, Structural)]
pub enum Stage {
    /// A transport connection is being established.
    Connecting,
    /// The application handshake is being performed.
    Handshaking,
    /// The request has been sent through the session.
    Requesting,
    /// The dispatch is over.
    Done,
}

/// The outcome of the work that was under way.
#[derive(Debug)]
pub enum Outcome<K, S, D, P, E> {
    /// A connection was established.
    Connected(K),
    /// The handshake gave a session and the driver that keeps it going.
    Established(S, D),
    /// A response arrived.
    Responded(P),
    /// The work failed.
    Failed(E),
}

/// What to do next.
#[derive(Debug)]
pub enum Action<K, S, D, P, E> {
    /// Perform the application handshake on the connection.
    Handshake(K),
    /// Spawn the driver, then send the request through the session.
    Launch(S, D),
    /// Return the response.
    Respond(P),
    /// Return the error.
    Fail(E),
}

/// Whether an outcome can come of the work of a stage.
pub open spec fn expected<K, S, D, P, E>(stage: Stage, outcome: Outcome<K, S, D, P, E>) -> bool {
    match outcome {
        Outcome::Connected(_) => stage == Stage::Connecting,
        Outcome::Established(..) => stage == Stage::Handshaking,
        Outcome::Responded(_) => stage == Stage::Requesting,
        Outcome::Failed(_) => stage != Stage::Done,
    }
}

/// The stage that follows an outcome, and what to do in it.
pub open spec fn next_step<K, S, D, P, E>(outcome: Outcome<K, S, D, P, E>) -> (
    Stage,
    Action<K, S, D, P, E>,
) {
    match outcome {
        Outcome::Connected(connection) => (Stage::Handshaking, Action::Handshake(connection)),
        Outcome::Established(session, driver) => (
            Stage::Requesting,
            Action::Launch(session, driver),
        ),
        Outcome::Responded(response) => (Stage::Done, Action::Respond(response)),
        Outcome::Failed(error) => (Stage::Done, Action::Fail(error)),
    }
}

/// Whether outcomes can come one after the other, beginning with the work of `stage`.
pub open spec fn possible<K, S, D, P, E>(
    stage: Stage,
    outcomes: Seq<Outcome<K, S, D, P, E>>,
) -> bool
    decreases outcomes.len(),
{
    outcomes.len() == 0 || {
        &&& expected(stage, outcomes.first())
        &&& possible(next_step(outcomes.first()).0, outcomes.drop_first())
    }
}

/// A dispatch never does more than three things. One that is over has returned a response
/// or the error of the work that failed, as the last thing it did.
pub proof fn law_dispatch_ends<K, S, D, P, E>(stage: Stage, outcomes: Seq<Outcome<K, S, D, P, E>>)
    requires
        possible(stage, outcomes),
    ensures
        stage == Stage::Done ==> outcomes.len() == 0,
        stage == Stage::Requesting ==> outcomes.len() <= 1,
        stage == Stage::Handshaking ==> outcomes.len() <= 2,
        outcomes.len() <= 3,
        forall|i: int|
            0 <= i < outcomes.len() - 1 ==> (#[trigger] outcomes[i]) is Connected
                || outcomes[i] is Established,
    decreases outcomes.len(),
{
    if outcomes.len() > 0 {
        let rest = outcomes.drop_first();
        law_dispatch_ends(next_step(outcomes.first()).0, rest);
        assert forall|i: int| 0 <= i < outcomes.len() - 1 implies (#[trigger] outcomes[i])
            is Connected || outcomes[i] is Established by {
            if i > 0 {
                assert(outcomes[i] == rest[i - 1]);
            }
        }
    }
}

/// A response takes all the work in order: a dispatch that returns one has connected,
/// performed the handshake on that connection, launched the driver and the session that
/// the handshake gave, and nothing else.
pub proof fn law_response_takes_all_work<K, S, D, P, E>(
    outcomes: Seq<Outcome<K, S, D, P, E>>,
)
    requires
        possible(Stage::Connecting, outcomes),
        outcomes.len() > 0,
        outcomes.last() is Responded,
    ensures
        outcomes.len() == 3,
        outcomes[0] matches Outcome::Connected(connection) && next_step(outcomes[0]).1
            == Action::<K, S, D, P, E>::Handshake(connection),
        outcomes[1] matches Outcome::Established(session, driver) && next_step(outcomes[1]).1
            == Action::<K, S, D, P, E>::Launch(session, driver),
{
    reveal_with_fuel(possible, 4);
    let rest = outcomes.drop_first();
    law_dispatch_ends(Stage::Connecting, outcomes);
    assert(outcomes.last() == outcomes[outcomes.len() - 1]);
    if outcomes.len() > 1 {
        assert(rest.first() == outcomes[1]);
        if outcomes.len() > 2 {
            assert(rest.drop_first().first() == outcomes[2]);
        }
    }
}

/// The state of one dispatch.
#[derive(Debug)]
pub struct Dispatch {
    stage: Stage,
}

impl Dispatch {
    /// The work that is under way.
    pub closed spec fn stage(&self) -> Stage {
        self.stage
    }

    /// A dispatch without a session: it begins by connecting.
    pub fn connecting() -> (r: Self)
        ensures
            r.stage() == Stage::Connecting,
    {
        Dispatch { stage: Stage::Connecting }
    }

    /// A dispatch through a session that is already there: it begins by sending.
    pub fn reusing() -> (r: Self)
        ensures
            r.stage() == Stage::Requesting,
    {
        Dispatch { stage: Stage::Requesting }
    }

    /// Takes the outcome of the work under way and decides what comes next.
    pub fn advance<K, S, D, P, E>(&mut self, outcome: Outcome<K, S, D, P, E>) -> (r: Action<
        K,
        S,
        D,
        P,
        E,
    >)
        requires
            expected(old(self).stage(), outcome),
        ensures
            (final(self).stage(), r) == next_step(outcome),
    {
        match outcome {
            Outcome::Connected(connection) => {
                self.stage = Stage::Handshaking;
                Action::Handshake(connection)
            },
            Outcome::Established(session, driver) => {
                self.stage = Stage::Requesting;
                Action::Launch(session, driver)
            },
            Outcome::Responded(response) => {
                self.stage = Stage::Done;
                Action::Respond(response)
            },
            Outcome::Failed(error) => {
                self.stage = Stage::Done;
                Action::Fail(error)
            },
        }
    }
}

/// Each outcome is followed by the work that it allows, with what it gave and nothing else: a
/// connection by the handshake on it, a session and its driver by launching both, a response
/// and an error by returning them, which ends the dispatch.
pub proof fn law_each_outcome_is_followed<K, S, D, P, E>(outcome: Outcome<K, S, D, P, E>)
    ensures
        outcome matches Outcome::Connected(connection) ==> next_step(outcome) == (
            Stage::Handshaking,
            Action::<K, S, D, P, E>::Handshake(connection),
        ),
        outcome matches Outcome::Established(session, driver) ==> next_step(outcome) == (
            Stage::Requesting,
            Action::<K, S, D, P, E>::Launch(session, driver),
        ),
        outcome matches Outcome::Responded(response) ==> next_step(outcome) == (
            Stage::Done,
            Action::<K, S, D, P, E>::Respond(response),
        ),
        outcome matches Outcome::Failed(error) ==> next_step(outcome) == (
            Stage::Done,
            Action::<K, S, D, P, E>::Fail(error),
        ),
        next_step(outcome).0 == Stage::Done <==> next_step(outcome).1 is Respond || next_step(
            outcome,
        ).1 is Fail,
{
}

/// A dispatch does what [`law_each_outcome_is_followed`] says.
pub proof fn law_dispatch_advances<K, S, D, P, E>(
    dispatch: &mut Dispatch,
    outcome: Outcome<K, S, D, P, E>,
    r: Action<K, S, D, P, E>,
)
    requires
        call_ensures(Dispatch::advance::<K, S, D, P, E>, (dispatch, outcome), r),
    ensures
        match outcome {
            Outcome::Connected(connection) => {
                &&& final(dispatch).stage() == Stage::Handshaking
                &&& r == Action::<K, S, D, P, E>::Handshake(connection)
            },
            Outcome::Established(session, driver) => {
                &&& final(dispatch).stage() == Stage::Requesting
                &&& r == Action::<K, S, D, P, E>::Launch(session, driver)
            },
            Outcome::Responded(response) => {
                &&& final(dispatch).stage() == Stage::Done
                &&& r == Action::<K, S, D, P, E>::Respond(response)
            },
            Outcome::Failed(error) => {
                &&& final(dispatch).stage() == Stage::Done
                &&& r == Action::<K, S, D, P, E>::Fail(error)
            },
        },
{
}

} // verus!
