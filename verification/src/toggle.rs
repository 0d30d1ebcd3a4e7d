//! The control socket: it lets one overlay at a time exist, and lets a second
//! invocation close the first one's.

use vstd::prelude::*;
use vstd::string::*;

use crate::text::join_path;

verus! {

/// How a call on a socket or a file ended, as far as it matters.
#[derive(Clone, Copy, Debug, PartialEq, Eq, Structural)]
pub enum SocketOutcome {
    Done,
    AddressInUse,
    ConnectionRefused,
    NotFound,
    OtherError,
}

/// A call that is made to get hold of the socket.
#[derive(Clone, Copy, Debug, PartialEq, Eq, Structural)]
pub enum SocketCall {
    /// Listen at the path.
    Bind,
    /// Connect to whoever listens at the path. This alone asks for a toggle.
    Connect,
    /// Remove what is left at the path.
    Remove,
}

/// An attempt to get hold of the socket.
#[derive(Clone, Copy, Debug, PartialEq, Eq, Structural)]
pub struct Acquisition {
    pub call: SocketCall,
    /// How many attempts to listen are left after this one.
    pub retries: u32,
}

/// How an attempt goes on.
#[derive(Clone, Copy, Debug, PartialEq, Eq, Structural)]
pub enum AcquireStep {
    /// Make the next call.
    Try(Acquisition),
    /// The socket is ours.
    Acquired,
    /// An overlay has the socket already, and was asked to close.
    AlreadyActive,
    /// Fail with the error of the last call.
    Failed,
    /// Fail because the address is in use.
    GaveUp,
}

/// How the collection of toggle requests goes on.
#[derive(Clone, Copy, Debug, PartialEq, Eq, Structural)]
pub enum AcceptStep {
    /// Accept another connection. Whether there was one before.
    Again(bool),
    /// No more connections are waiting. Whether there was one.
    Done(bool),
    /// Fail with the error of the last call.
    Failed,
}

/// How accepting a connection ended.
#[derive(Clone, Copy, Debug, PartialEq, Eq, Structural)]
pub enum AcceptOutcome {
    Accepted,
    WouldBlock,
    OtherError,
}

/// The control socket of an overlay.
pub struct ToggleServer {
    pub socket_path: String,
}

/// Where the socket is in the directory for files of a session.
pub open spec fn socket_path_in(runtime_dir: Seq<char>) -> Seq<char> {
    crate::text::joined_path(
        crate::text::joined_path(runtime_dir, "cursor-clip"@),
        "overlay.sock"@,
    )
}

impl Acquisition {
    /// The first attempt.
    pub open spec fn first() -> Self {
        Acquisition { call: SocketCall::Bind, retries: 1 }
    }

    /// How the attempt goes on after its call ended.
    pub open spec fn after(self, outcome: SocketOutcome) -> AcquireStep {
        match (self.call, outcome) {
            (SocketCall::Bind, SocketOutcome::Done) => AcquireStep::Acquired,
            (SocketCall::Bind, SocketOutcome::AddressInUse) => AcquireStep::Try(
                Acquisition { call: SocketCall::Connect, ..self },
            ),
            (SocketCall::Connect, SocketOutcome::Done) => AcquireStep::AlreadyActive,
            (SocketCall::Connect, SocketOutcome::ConnectionRefused)
            | (SocketCall::Connect, SocketOutcome::NotFound) => AcquireStep::Try(
                Acquisition { call: SocketCall::Remove, ..self },
            ),
            (SocketCall::Remove, SocketOutcome::Done)
            | (SocketCall::Remove, SocketOutcome::NotFound) => if self.retries > 0 {
                AcquireStep::Try(
                    Acquisition {
                        call: SocketCall::Bind,
                        retries: (self.retries - 1) as u32,
                    },
                )
            } else {
                AcquireStep::GaveUp
            },
            _ => AcquireStep::Failed,
        }
    }
}

/// What is said when the socket could not be had.
pub open spec fn gave_up_text() -> Seq<char> {
    "could not acquire overlay control socket"@
}

/// What is said when the socket could not be had.
pub fn gave_up_message() -> (message: String)
    ensures
        message@ == gave_up_text(),
{
    "could not acquire overlay control socket".to_owned()
}

impl ToggleServer {
    /// The socket of a session and the first attempt to get hold of it; nothing
    /// if there is no directory for files of the session.
    pub fn acquire(runtime_dir: Option<&str>) -> (r: Option<(Self, Acquisition)>)
        ensures
            r is Some <==> runtime_dir is Some,
            r matches Some((server, attempt)) ==> runtime_dir matches Some(dir)
                && server.socket_path@ == socket_path_in(dir@) && attempt == Acquisition::first(),
    {
        match runtime_dir {
            Some(dir) => {
                let parent = join_path(dir, "cursor-clip");
                let socket_path = join_path(parent.as_str(), "overlay.sock");
                Some(
                    (
                        ToggleServer { socket_path },
                        Acquisition { call: SocketCall::Bind, retries: 1 },
                    ),
                )
            },
            None => None,
        }
    }

    /// A call of an attempt ended. What is at the path is removed only after it
    /// turned out that nobody listens there.
    pub fn acquire_at(attempt: Acquisition, outcome: SocketOutcome) -> (step: AcquireStep)
        ensures
            step == attempt.after(outcome),
    {
        match attempt.call {
            SocketCall::Bind => match outcome {
                SocketOutcome::Done => AcquireStep::Acquired,
                SocketOutcome::AddressInUse => AcquireStep::Try(
                    Acquisition { call: SocketCall::Connect, retries: attempt.retries },
                ),
                _ => AcquireStep::Failed,
            },
            SocketCall::Connect => match outcome {
                SocketOutcome::Done => AcquireStep::AlreadyActive,
                SocketOutcome::ConnectionRefused | SocketOutcome::NotFound => AcquireStep::Try(
                    Acquisition { call: SocketCall::Remove, retries: attempt.retries },
                ),
                _ => AcquireStep::Failed,
            },
            SocketCall::Remove => match outcome {
                SocketOutcome::Done | SocketOutcome::NotFound => if attempt.retries > 0 {
                    AcquireStep::Try(
                        Acquisition { call: SocketCall::Bind, retries: attempt.retries - 1 },
                    )
                } else {
                    AcquireStep::GaveUp
                },
                _ => AcquireStep::Failed,
            },
        }
    }

    /// A connection was accepted, or not. Each connection is one toggle request;
    /// what is sent over it does not matter. The collection starts with
    /// `requested` false.
    pub fn take_toggle_request(requested: bool, outcome: AcceptOutcome) -> (step: AcceptStep)
        ensures
            step == accept_step(requested, outcome),
    {
        match outcome {
            AcceptOutcome::Accepted => AcceptStep::Again(true),
            AcceptOutcome::WouldBlock => AcceptStep::Done(requested),
            AcceptOutcome::OtherError => AcceptStep::Failed,
        }
    }
}

/// How the collection of toggle requests goes on.
pub open spec fn accept_step(requested: bool, outcome: AcceptOutcome) -> AcceptStep {
    match outcome {
        AcceptOutcome::Accepted => AcceptStep::Again(true),
        AcceptOutcome::WouldBlock => AcceptStep::Done(requested),
        AcceptOutcome::OtherError => AcceptStep::Failed,
    }
}

/// How far an attempt has come after a run of calls. Once it is over, no more
/// calls are made.
pub open spec fn acquired(outcomes: Seq<SocketOutcome>) -> AcquireStep
    decreases outcomes.len(),
{
    if outcomes.len() == 0 {
        AcquireStep::Try(Acquisition::first())
    } else {
        match acquired(outcomes.drop_last()) {
            AcquireStep::Try(attempt) => attempt.after(outcomes.last()),
            over => over,
        }
    }
}

/// How far the collection of toggle requests has come after a run of calls.
pub open spec fn collected(outcomes: Seq<AcceptOutcome>) -> AcceptStep
    decreases outcomes.len(),
{
    if outcomes.len() == 0 {
        AcceptStep::Again(false)
    } else {
        match collected(outcomes.drop_last()) {
            AcceptStep::Again(requested) => accept_step(requested, outcomes.last()),
            over => over,
        }
    }
}

/// How many calls an attempt has behind it.
spec fn calls_made(attempt: Acquisition) -> int {
    (1 - attempt.retries) * 3 + match attempt.call {
        SocketCall::Bind => 0int,
        SocketCall::Connect => 1,
        SocketCall::Remove => 2,
    }
}

proof fn lemma_acquired(outcomes: Seq<SocketOutcome>)
    ensures
        acquired(outcomes) matches AcquireStep::Try(attempt) ==> attempt.retries <= 1 && calls_made(
            attempt,
        ) == outcomes.len(),
    decreases outcomes.len(),
{
    if outcomes.len() > 0 {
        lemma_acquired(outcomes.drop_last());
    }
}

/// An attempt is over after at most six calls, two of each.
pub proof fn law_acquisition_ends(outcomes: Seq<SocketOutcome>)
    requires
        outcomes.len() >= 6,
    ensures
        !(acquired(outcomes) is Try),
{
    lemma_acquired(outcomes);
}

/// What is at the path is removed only after listening there failed because
/// something is there, and connecting to it failed because nobody listens.
pub proof fn law_only_stale_sockets_are_removed(outcomes: Seq<SocketOutcome>)
    requires
        acquired(outcomes) matches AcquireStep::Try(attempt) && attempt.call == SocketCall::Remove,
    ensures
        outcomes.len() >= 2,
        outcomes[outcomes.len() - 2] == SocketOutcome::AddressInUse,
        outcomes[outcomes.len() - 1] == SocketOutcome::ConnectionRefused || outcomes[outcomes.len()
            - 1] == SocketOutcome::NotFound,
{
    let before = outcomes.drop_last();
    lemma_acquired(before);
    assert(before.len() > 0);
    assert(before.drop_last().len() == outcomes.len() - 2);
}

/// A call makes a second invocation yield if and only if it connected to the
/// first one, and gets hold of the socket if and only if it could listen there.
pub proof fn law_second_invocation_yields(outcomes: Seq<SocketOutcome>, attempt: Acquisition)
    requires
        outcomes.len() > 0,
        acquired(outcomes.drop_last()) == AcquireStep::Try(attempt),
    ensures
        acquired(outcomes) is AlreadyActive <==> attempt.call == SocketCall::Connect
            && outcomes.last() == SocketOutcome::Done,
        acquired(outcomes) is Acquired <==> attempt.call == SocketCall::Bind && outcomes.last()
            == SocketOutcome::Done,
{
}

/// What is at the socket's path.
#[derive(Clone, Copy, Debug, PartialEq, Eq, Structural)]
pub enum PathState {
    /// Nothing.
    Free,
    /// A socket at which nobody listens any more.
    Stale,
    /// A socket at which an overlay listens.
    Live,
}

/// How a call ends, and what is at the path afterwards, as long as nobody else
/// meddles with it.
pub open spec fn answer_at(path: PathState, call: SocketCall) -> (SocketOutcome, PathState) {
    match (call, path) {
        (SocketCall::Bind, PathState::Free) => (SocketOutcome::Done, PathState::Live),
        (SocketCall::Bind, _) => (SocketOutcome::AddressInUse, path),
        (SocketCall::Connect, PathState::Free) => (SocketOutcome::NotFound, path),
        (SocketCall::Connect, PathState::Stale) => (SocketOutcome::ConnectionRefused, path),
        (SocketCall::Connect, PathState::Live) => (SocketOutcome::Done, path),
        (SocketCall::Remove, PathState::Free) => (SocketOutcome::NotFound, path),
        (SocketCall::Remove, _) => (SocketOutcome::Done, PathState::Free),
    }
}

/// How an attempt on a path ends that makes no more than so many calls.
pub open spec fn attempt_at(path: PathState, step: AcquireStep, calls: nat) -> (
    AcquireStep,
    PathState,
)
    decreases calls,
{
    match step {
        AcquireStep::Try(attempt) => if calls == 0 {
            (step, path)
        } else {
            let (outcome, next) = answer_at(path, attempt.call);
            attempt_at(next, attempt.after(outcome), (calls - 1) as nat)
        },
        _ => (step, path),
    }
}

/// Where an overlay listens, a second invocation yields and leaves its socket
/// alone. Where none does, the invocation gets the socket, even if an old one is
/// in the way. Either way there is one overlay in the end.
pub proof fn law_one_overlay_at_a_time(path: PathState)
    ensures
        attempt_at(path, AcquireStep::Try(Acquisition::first()), 6) == (if path == PathState::Live {
            (AcquireStep::AlreadyActive, PathState::Live)
        } else {
            (AcquireStep::Acquired, PathState::Live)
        }),
{
    reveal_with_fuel(attempt_at, 7);
}

/// A toggle is requested if and only if at least one connection was accepted,
/// however many there were.
pub proof fn law_every_connection_is_a_request(outcomes: Seq<AcceptOutcome>)
    requires
        outcomes.len() == 0 || collected(outcomes.drop_last()) is Again,
    ensures
        collected(outcomes) matches AcceptStep::Again(requested) ==> requested == outcomes.contains(
            AcceptOutcome::Accepted,
        ),
        collected(outcomes) matches AcceptStep::Done(requested) ==> requested == outcomes.contains(
            AcceptOutcome::Accepted,
        ),
    decreases outcomes.len(),
{
    if outcomes.len() > 0 {
        let before = outcomes.drop_last();
        law_every_connection_is_a_request(before);
        assert(outcomes =~= before.push(outcomes.last()));
        if before.contains(AcceptOutcome::Accepted) {
            let i = before.index_of(AcceptOutcome::Accepted);
            assert(outcomes[i] == AcceptOutcome::Accepted);
        }
        if outcomes.last() == AcceptOutcome::Accepted {
            assert(outcomes[outcomes.len() - 1] == AcceptOutcome::Accepted);
        } else if outcomes.contains(AcceptOutcome::Accepted) {
            let i = outcomes.index_of(AcceptOutcome::Accepted);
            assert(before[i] == AcceptOutcome::Accepted);
        }
    }
}

/// An error that says nothing about the path ends an attempt at whatever call it
/// comes, and so does an answer that the call has no use for.
pub proof fn law_other_errors_end_the_attempt(attempt: Acquisition, outcome: SocketOutcome)
    ensures
        attempt.after(SocketOutcome::OtherError) is Failed,
        attempt.call != SocketCall::Bind ==> attempt.after(SocketOutcome::AddressInUse) is Failed,
        attempt.call == SocketCall::Bind && outcome != SocketOutcome::Done && outcome
            != SocketOutcome::AddressInUse ==> attempt.after(outcome) is Failed,
        attempt.call == SocketCall::Remove ==> attempt.after(SocketOutcome::ConnectionRefused)
            is Failed,
        attempt.after(outcome) is GaveUp ==> attempt.retries == 0 && attempt.call
            == SocketCall::Remove,
{
}

/// The collection of requests ends exactly when no connection is waiting or a call
/// fails, and it fails only then.
pub proof fn law_collection_goes_on_until_nothing_waits(requested: bool, outcome: AcceptOutcome)
    ensures
        accept_step(requested, outcome) is Again <==> outcome == AcceptOutcome::Accepted,
        accept_step(requested, outcome) is Failed <==> outcome == AcceptOutcome::OtherError,
{
}

/// The socket stands in the program's own directory among the files of the session.
pub proof fn law_socket_stands_in_the_session(runtime_dir: Seq<char>)
    requires
        runtime_dir.len() > 0,
        runtime_dir.last() != '/',
    ensures
        socket_path_in(runtime_dir) == runtime_dir + "/cursor-clip/overlay.sock"@,
{
    reveal_strlit("/");
    reveal_strlit("cursor-clip");
    reveal_strlit("overlay.sock");
    reveal_strlit("/cursor-clip/overlay.sock");
    assert((runtime_dir + "/"@ + "cursor-clip"@).last() == 'p');
    assert(socket_path_in(runtime_dir) =~= runtime_dir + "/cursor-clip/overlay.sock"@);
}

/// Something at the path is connected to, and removed if nobody listens there or if it
/// is gone by then; the path is then tried once more as long as there is another
/// attempt.
pub proof fn law_attempt_goes_round(attempt: Acquisition)
    ensures
        attempt.call == SocketCall::Bind ==> attempt.after(SocketOutcome::AddressInUse)
            == AcquireStep::Try(
            Acquisition { call: SocketCall::Connect, retries: attempt.retries },
        ),
        attempt.call == SocketCall::Connect ==> attempt.after(SocketOutcome::ConnectionRefused)
            == AcquireStep::Try(
            Acquisition { call: SocketCall::Remove, retries: attempt.retries },
        ),
        attempt.call == SocketCall::Connect ==> attempt.after(SocketOutcome::NotFound)
            == attempt.after(SocketOutcome::ConnectionRefused),
        attempt.call == SocketCall::Remove && attempt.retries > 0 ==> attempt.after(
            SocketOutcome::Done,
        ) == AcquireStep::Try(
            Acquisition { call: SocketCall::Bind, retries: (attempt.retries - 1) as u32 },
        ),
        attempt.call == SocketCall::Remove ==> attempt.after(SocketOutcome::NotFound)
            == attempt.after(SocketOutcome::Done),
        attempt.call == SocketCall::Remove && attempt.retries == 0 ==> attempt.after(
            SocketOutcome::Done,
        ) is GaveUp,
{
}

} // verus!
