use vstd::prelude::*;

use crate::channel::ChannelError;

verus! {

/// Why a spawn with a process descriptor failed.
#[derive(Debug, Clone, Copy, PartialEq, Eq, Structural)]
pub enum SpawnError {
    /// The kernel has no descriptor-open call; nothing was created.
    Unsupported,
    /// The socket pair could not be created (OS error code); nothing was created.
    Setup(i32),
    /// The process could not be launched (OS error code).
    Launch(i32),
    /// The descriptor did not arrive from the child.
    Channel(ChannelError),
}

/// Where the parent side of a spawn stands.
#[derive(Debug, Clone, Copy, PartialEq, Eq, Structural)]
pub enum SpawnState {
    Start,
    AwaitPair,
    AwaitLaunch,
    AwaitDescriptor { child_id: u32 },
    Finished,
}

/// What the parent learned from the outside.
#[derive(Debug, Clone, Copy, PartialEq, Eq, Structural)]
pub enum SpawnEvent {
    /// The spawn is asked for; `supported` is the capability flag.
    Begin { supported: bool },
    PairCreated,
    PairFailed(i32),
    /// The process was launched with this ordinary id.
    Launched { child_id: u32 },
    LaunchFailed(i32),
    /// The descriptor that arrived on the parent's socket half.
    Received(i32),
    /// Receiving on the parent's socket half failed.
    ReceiveFailed(ChannelError),
}

/// What the parent is to do next.
#[derive(Debug, Clone, Copy, PartialEq, Eq, Structural)]
pub enum SpawnAction {
    /// Create the connected socket pair.
    CreatePair,
    /// Register the child-side hook on the command and launch it.
    Launch,
    /// Receive the descriptor on the parent's socket half.
    Receive,
    /// Hand the child and its process descriptor to the caller.
    Deliver { child_id: u32, pidfd: i32 },
    /// Report the error to the caller.
    Fail(SpawnError),
    /// The event does not belong to this state: nothing to do.
    Ignore,
}

/// The parent's next state and action.
pub open spec fn spawn_step_spec(state: SpawnState, event: SpawnEvent) -> (SpawnState, SpawnAction) {
    match (state, event) {
        (SpawnState::Start, SpawnEvent::Begin { supported }) => if supported {
            (SpawnState::AwaitPair, SpawnAction::CreatePair)
        } else {
            (SpawnState::Finished, SpawnAction::Fail(SpawnError::Unsupported))
        },
        (SpawnState::AwaitPair, SpawnEvent::PairCreated) => (
            SpawnState::AwaitLaunch,
            SpawnAction::Launch,
        ),
        (SpawnState::AwaitPair, SpawnEvent::PairFailed(e)) => (
            SpawnState::Finished,
            SpawnAction::Fail(SpawnError::Setup(e)),
        ),
        (SpawnState::AwaitLaunch, SpawnEvent::Launched { child_id }) => (
            SpawnState::AwaitDescriptor { child_id },
            SpawnAction::Receive,
        ),
        (SpawnState::AwaitLaunch, SpawnEvent::LaunchFailed(e)) => (
            SpawnState::Finished,
            SpawnAction::Fail(SpawnError::Launch(e)),
        ),
        (SpawnState::AwaitDescriptor { child_id }, SpawnEvent::Received(pidfd)) => (
            SpawnState::Finished,
            SpawnAction::Deliver { child_id, pidfd },
        ),
        (SpawnState::AwaitDescriptor { .. }, SpawnEvent::ReceiveFailed(e)) => (
            SpawnState::Finished,
            SpawnAction::Fail(SpawnError::Channel(e)),
        ),
        _ => (state, SpawnAction::Ignore),
    }
}

/// Takes the parent side of a spawn one step.
pub fn spawn_step(state: SpawnState, event: SpawnEvent) -> (r: (SpawnState, SpawnAction))
    ensures
        r == spawn_step_spec(state, event),
{
    match (state, event) {
        (SpawnState::Start, SpawnEvent::Begin { supported }) => if supported {
            (SpawnState::AwaitPair, SpawnAction::CreatePair)
        } else {
            (SpawnState::Finished, SpawnAction::Fail(SpawnError::Unsupported))
        },
        (SpawnState::AwaitPair, SpawnEvent::PairCreated) => (
            SpawnState::AwaitLaunch,
            SpawnAction::Launch,
        ),
        (SpawnState::AwaitPair, SpawnEvent::PairFailed(e)) => (
            SpawnState::Finished,
            SpawnAction::Fail(SpawnError::Setup(e)),
        ),
        (SpawnState::AwaitLaunch, SpawnEvent::Launched { child_id }) => (
            SpawnState::AwaitDescriptor { child_id },
            SpawnAction::Receive,
        ),
        (SpawnState::AwaitLaunch, SpawnEvent::LaunchFailed(e)) => (
            SpawnState::Finished,
            SpawnAction::Fail(SpawnError::Launch(e)),
        ),
        (SpawnState::AwaitDescriptor { child_id }, SpawnEvent::Received(pidfd)) => (
            SpawnState::Finished,
            SpawnAction::Deliver { child_id, pidfd },
        ),
        (SpawnState::AwaitDescriptor { .. }, SpawnEvent::ReceiveFailed(e)) => (
            SpawnState::Finished,
            SpawnAction::Fail(SpawnError::Channel(e)),
        ),
        _ => (state, SpawnAction::Ignore),
    }
}

/// The actions that a run of `events` from `state` produces, one per event.
pub open spec fn spawn_actions(state: SpawnState, events: Seq<SpawnEvent>) -> Seq<SpawnAction>
    decreases events.len(),
{
    if events.len() == 0 {
        Seq::empty()
    } else {
        let (next, action) = spawn_step_spec(state, events[0]);
        seq![action].add(spawn_actions(next, events.drop_first()))
    }
}

/// Whether an action creates anything: a socket pair or a process.
pub open spec fn creates_resources(action: SpawnAction) -> bool {
    action is CreatePair || action is Launch
}

proof fn lemma_finished_stays_idle(events: Seq<SpawnEvent>)
    ensures
        spawn_actions(SpawnState::Finished, events).len() == events.len(),
        forall|i: int|
            0 <= i < events.len() ==> #[trigger] spawn_actions(SpawnState::Finished, events)[i]
                == SpawnAction::Ignore,
    decreases events.len(),
{
    if events.len() > 0 {
        lemma_finished_stays_idle(events.drop_first());
        let rest = spawn_actions(SpawnState::Finished, events.drop_first());
        assert forall|i: int| 0 <= i < events.len() implies #[trigger] spawn_actions(
            SpawnState::Finished,
            events,
        )[i] == SpawnAction::Ignore by {
            if i > 0 {
                assert(spawn_actions(SpawnState::Finished, events)[i] == rest[i - 1]);
            }
        }
    }
}

/// When the kernel lacks the descriptor-open call, a spawn fails with
/// `Unsupported` at once, and no later event makes it create a socket pair or
/// launch a process.
pub proof fn lemma_unsupported_creates_nothing(events: Seq<SpawnEvent>)
    requires
        events.len() > 0,
        events[0] == (SpawnEvent::Begin { supported: false }),
    ensures
        spawn_actions(SpawnState::Start, events)[0] == SpawnAction::Fail(SpawnError::Unsupported),
        forall|i: int|
            0 <= i < events.len() ==> !creates_resources(
                #[trigger] spawn_actions(SpawnState::Start, events)[i],
            ),
{
    let acts = spawn_actions(SpawnState::Start, events);
    let rest = spawn_actions(SpawnState::Finished, events.drop_first());
    lemma_finished_stays_idle(events.drop_first());
    assert(acts == seq![SpawnAction::Fail(SpawnError::Unsupported)].add(rest));
    assert forall|i: int| 0 <= i < events.len() implies !creates_resources(
        #[trigger] spawn_actions(SpawnState::Start, events)[i],
    ) by {
        if i > 0 {
            assert(acts[i] == rest[i - 1]);
        }
    }
}

proof fn lemma_delivery_from(state: SpawnState, events: Seq<SpawnEvent>, i: int, c: u32, f: i32)
    requires
        0 <= i < events.len(),
        spawn_actions(state, events).len() == events.len(),
        spawn_actions(state, events)[i] == (SpawnAction::Deliver { child_id: c, pidfd: f }),
    ensures
        events[i] == SpawnEvent::Received(f),
        state == (SpawnState::AwaitDescriptor { child_id: c }) || exists|j: int|
            0 <= j < i && events[j] == (SpawnEvent::Launched { child_id: c }),
    decreases events.len(),
{
    let (next, action) = spawn_step_spec(state, events[0]);
    let rest = spawn_actions(next, events.drop_first());
    lemma_actions_len(next, events.drop_first());
    if i > 0 {
        assert(spawn_actions(state, events)[i] == rest[i - 1]);
        lemma_delivery_from(next, events.drop_first(), i - 1, c, f);
        assert(events.drop_first()[i - 1] == events[i]);
        if next == (SpawnState::AwaitDescriptor { child_id: c }) {
            if state != next {
                assert(events[0] == (SpawnEvent::Launched { child_id: c }));
            }
        } else {
            let j = choose|j: int|
                0 <= j < i - 1 && events.drop_first()[j] == (SpawnEvent::Launched { child_id: c });
            assert(events[j + 1] == events.drop_first()[j]);
        }
    }
}

proof fn lemma_actions_len(state: SpawnState, events: Seq<SpawnEvent>)
    ensures
        spawn_actions(state, events).len() == events.len(),
    decreases events.len(),
{
    if events.len() > 0 {
        let (next, action) = spawn_step_spec(state, events[0]);
        lemma_actions_len(next, events.drop_first());
    }
}

/// A spawn hands over, as one pair, the id of the process that it launched
/// and the descriptor that arrived afterwards: any `Deliver` in a run from
/// the start answers a `Received` event and follows a `Launched` event with
/// the same id.
pub proof fn lemma_delivery_pairs_launch(events: Seq<SpawnEvent>, i: int, c: u32, f: i32)
    requires
        0 <= i < events.len(),
        spawn_actions(SpawnState::Start, events)[i] == (SpawnAction::Deliver {
            child_id: c,
            pidfd: f,
        }),
    ensures
        events[i] == SpawnEvent::Received(f),
        exists|j: int| 0 <= j < i && events[j] == (SpawnEvent::Launched { child_id: c }),
{
    lemma_actions_len(SpawnState::Start, events);
    lemma_delivery_from(SpawnState::Start, events, i, c, f);
}

/// Why the child-side hook stopped the child before its program was replaced.
#[derive(Debug, Clone, Copy, PartialEq, Eq, Structural)]
pub enum HookFailure {
    /// A call failed with this OS error code.
    Os(i32),
    /// The descriptor-open call returned a number that is no descriptor.
    DescriptorOutOfRange,
}

/// Where the hook that runs in the child, between fork and exec, stands.
#[derive(Debug, Clone, Copy, PartialEq, Eq, Structural)]
pub enum HookState {
    Start,
    AwaitPid,
    AwaitOpen,
    AwaitSend,
    Finished,
}

/// What the hook learned from the outside.
#[derive(Debug, Clone, Copy, PartialEq, Eq, Structural)]
pub enum HookEvent {
    Begin,
    /// The process id query returned `pid`, leaving `errno`.
    Pid { pid: i32, errno: i32 },
    /// The descriptor-open call returned `ret`, leaving `errno`.
    Opened { ret: i64, errno: i32 },
    /// The send of the descriptor returned `ret`, leaving `errno`.
    Sent { ret: isize, errno: i32 },
}

/// What the hook is to do next.
#[derive(Debug, Clone, Copy, PartialEq, Eq, Structural)]
pub enum HookAction {
    QueryPid,
    OpenDescriptor { pid: i32 },
    SendDescriptor { fd: i32 },
    /// Let the child go on to replace its program.
    Proceed,
    /// Fail the hook, so that the child never replaces its program.
    Abort(HookFailure),
    Ignore,
}

/// The hook's next state and action.
pub open spec fn hook_step_spec(state: HookState, event: HookEvent) -> (HookState, HookAction) {
    match (state, event) {
        (HookState::Start, HookEvent::Begin) => (HookState::AwaitPid, HookAction::QueryPid),
        (HookState::AwaitPid, HookEvent::Pid { pid, errno }) => if pid < 0 {
            (HookState::Finished, HookAction::Abort(HookFailure::Os(errno)))
        } else {
            (HookState::AwaitOpen, HookAction::OpenDescriptor { pid })
        },
        (HookState::AwaitOpen, HookEvent::Opened { ret, errno }) => if ret < 0 {
            (HookState::Finished, HookAction::Abort(HookFailure::Os(errno)))
        } else if ret > i32::MAX {
            (HookState::Finished, HookAction::Abort(HookFailure::DescriptorOutOfRange))
        } else {
            (HookState::AwaitSend, HookAction::SendDescriptor { fd: ret as i32 })
        },
        (HookState::AwaitSend, HookEvent::Sent { ret, errno }) => if ret < 0 {
            (HookState::Finished, HookAction::Abort(HookFailure::Os(errno)))
        } else {
            (HookState::Finished, HookAction::Proceed)
        },
        _ => (state, HookAction::Ignore),
    }
}

/// Takes the child-side hook one step.
pub fn hook_step(state: HookState, event: HookEvent) -> (r: (HookState, HookAction))
    ensures
        r == hook_step_spec(state, event),
{
    match (state, event) {
        (HookState::Start, HookEvent::Begin) => (HookState::AwaitPid, HookAction::QueryPid),
        (HookState::AwaitPid, HookEvent::Pid { pid, errno }) => if pid < 0 {
            (HookState::Finished, HookAction::Abort(HookFailure::Os(errno)))
        } else {
            (HookState::AwaitOpen, HookAction::OpenDescriptor { pid })
        },
        (HookState::AwaitOpen, HookEvent::Opened { ret, errno }) => if ret < 0 {
            (HookState::Finished, HookAction::Abort(HookFailure::Os(errno)))
        } else if ret > i32::MAX as i64 {
            (HookState::Finished, HookAction::Abort(HookFailure::DescriptorOutOfRange))
        } else {
            (HookState::AwaitSend, HookAction::SendDescriptor { fd: ret as i32 })
        },
        (HookState::AwaitSend, HookEvent::Sent { ret, errno }) => match crate::channel::send_outcome(
            ret,
            errno,
        ) {
            Ok(()) => (HookState::Finished, HookAction::Proceed),
            Err(_) => (HookState::Finished, HookAction::Abort(HookFailure::Os(errno))),
        },
        _ => (state, HookAction::Ignore),
    }
}

/// The actions that a run of `events` from `state` produces, one per event.
pub open spec fn hook_actions(state: HookState, events: Seq<HookEvent>) -> Seq<HookAction>
    decreases events.len(),
{
    if events.len() == 0 {
        Seq::empty()
    } else {
        let (next, action) = hook_step_spec(state, events[0]);
        seq![action].add(hook_actions(next, events.drop_first()))
    }
}

proof fn lemma_hook_actions_len(state: HookState, events: Seq<HookEvent>)
    ensures
        hook_actions(state, events).len() == events.len(),
    decreases events.len(),
{
    if events.len() > 0 {
        let (next, action) = hook_step_spec(state, events[0]);
        lemma_hook_actions_len(next, events.drop_first());
    }
}

proof fn lemma_finished_hook_stays_idle(events: Seq<HookEvent>)
    ensures
        forall|i: int|
            0 <= i < events.len() ==> #[trigger] hook_actions(HookState::Finished, events)[i]
                == HookAction::Ignore,
    decreases events.len(),
{
    if events.len() > 0 {
        lemma_finished_hook_stays_idle(events.drop_first());
        lemma_hook_actions_len(HookState::Finished, events.drop_first());
        let rest = hook_actions(HookState::Finished, events.drop_first());
        assert forall|i: int| 0 <= i < events.len() implies #[trigger] hook_actions(
            HookState::Finished,
            events,
        )[i] == HookAction::Ignore by {
            if i > 0 {
                assert(hook_actions(HookState::Finished, events)[i] == rest[i - 1]);
            }
        }
    }
}

/// Where the descriptor-open call fails in the child, the hook aborts with
/// that call's error, and whatever happens after, it never lets the child go
/// on to replace its program.
pub proof fn lemma_failed_open_never_proceeds(ret: i64, errno: i32, later: Seq<HookEvent>)
    requires
        ret < 0,
    ensures
        ({
            let acts = hook_actions(
                HookState::AwaitOpen,
                seq![HookEvent::Opened { ret, errno }].add(later),
            );
            &&& acts.len() == later.len() + 1
            &&& acts[0] == HookAction::Abort(HookFailure::Os(errno))
            &&& forall|i: int| 0 <= i < acts.len() ==> acts[i] != HookAction::Proceed
        }),
{
    let events = seq![HookEvent::Opened { ret, errno }].add(later);
    assert(events.drop_first() =~= later);
    lemma_hook_actions_len(HookState::AwaitOpen, events);
    lemma_hook_actions_len(HookState::Finished, later);
    lemma_finished_hook_stays_idle(later);
    let acts = hook_actions(HookState::AwaitOpen, events);
    let rest = hook_actions(HookState::Finished, later);
    assert(acts == seq![HookAction::Abort(HookFailure::Os(errno))].add(rest));
    assert forall|i: int| 0 <= i < acts.len() implies acts[i] != HookAction::Proceed by {
        if i > 0 {
            assert(acts[i] == rest[i - 1]);
        }
    }
}

} // verus!
