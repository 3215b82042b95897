use spawn_pidfd::capability::{classify_probe, is_supported, CapabilityFlag};
use spawn_pidfd::channel::{
    align_to, one_descriptor_layout, receive_outcome, rights_entry, send_outcome, ChannelError,
    ControlLayout, RightsEntry, DESCRIPTOR_BYTES, FILLER_BYTE,
};
use spawn_pidfd::spawn::{
    hook_step, spawn_step, HookAction, HookEvent, HookFailure, HookState, SpawnAction,
    SpawnError, SpawnEvent, SpawnState,
};

fn sample_layout() -> ControlLayout {
    ControlLayout { header: 16, len: 20, space: 24 }
}

#[test]
fn probe_success_means_supported() {
    assert!(is_supported(0, 0));
    assert!(is_supported(7, libc::ENOSYS));
}

#[test]
fn probe_not_implemented_means_unsupported() {
    assert!(!is_supported(-1, libc::ENOSYS));
}

#[test]
fn probe_other_errors_mean_supported() {
    assert!(is_supported(-1, libc::ESRCH));
    assert!(is_supported(-1, libc::EINVAL));
    assert!(is_supported(-1, libc::EPERM));
}

#[test]
fn classify_probe_values() {
    assert!(classify_probe(3, true));
    assert!(classify_probe(-1, false));
    assert!(!classify_probe(-1, true));
    assert!(classify_probe(0, true));
}

#[test]
fn flag_keeps_first_value() {
    let mut flag = CapabilityFlag::new();
    assert_eq!(flag.cached(), None);
    assert!(flag.settle(true));
    assert_eq!(flag.cached(), Some(true));
    for _ in 0..10 {
        assert!(flag.settle(false));
        assert_eq!(flag.cached(), Some(true));
    }
}

#[test]
fn flag_keeps_first_false() {
    let mut flag = CapabilityFlag::new();
    assert!(!flag.settle(false));
    assert!(!flag.settle(true));
    assert_eq!(flag.cached(), Some(false));
}

#[test]
fn align_to_values() {
    assert_eq!(align_to(20, 8), Some(24));
    assert_eq!(align_to(16, 8), Some(16));
    assert_eq!(align_to(0, 8), Some(0));
    assert_eq!(align_to(4, 8), Some(8));
    assert_eq!(align_to(4, 4), Some(4));
    assert_eq!(align_to(5, 3), Some(6));
    assert_eq!(align_to(usize::MAX, 8), None);
    assert_eq!(align_to(usize::MAX - 7, 8), Some(usize::MAX - 7));
    assert_eq!(align_to(usize::MAX, 1), Some(usize::MAX));
}

#[test]
fn platform_layout_holds_one_descriptor() {
    let l = one_descriptor_layout().expect("layout fits");
    let word = std::mem::size_of::<usize>();
    let header = std::mem::size_of::<libc::cmsghdr>();
    assert_eq!(l.header % word, 0);
    assert!(l.header >= header && l.header < header + word);
    assert_eq!(l.len, l.header + DESCRIPTOR_BYTES);
    assert!(l.len <= l.space);
    assert!(l.space - l.len < word);
    if word == 8 && header == 16 {
        assert_eq!((l.header, l.len, l.space), (16, 20, 24));
    }
}

#[test]
fn filler_byte_is_dollar() {
    assert_eq!(FILLER_BYTE, b'$');
}

#[test]
fn send_outcome_values() {
    assert_eq!(send_outcome(1, 0), Ok(()));
    assert_eq!(send_outcome(0, 0), Ok(()));
    assert_eq!(send_outcome(-1, libc::EPIPE), Err(ChannelError::Os(libc::EPIPE)));
    assert_eq!(send_outcome(-1, libc::EBADF), Err(ChannelError::Os(libc::EBADF)));
}

#[test]
fn framed_descriptor_round_trips() {
    let l = sample_layout();
    let entry = rights_entry(&l, 9);
    assert_eq!(entry, RightsEntry { len: 20, fd: 9 });
    assert_eq!(receive_outcome(&l, 1, 0, Some(entry)), Ok(9));
}

#[test]
fn receive_reads_only_first_entry() {
    let l = sample_layout();
    let two = RightsEntry { len: 24, fd: 5 };
    assert_eq!(receive_outcome(&l, 1, 0, Some(two)), Ok(5));
}

#[test]
fn receive_errors() {
    let l = sample_layout();
    assert_eq!(
        receive_outcome(&l, -1, libc::ECONNRESET, Some(RightsEntry { len: 20, fd: 3 })),
        Err(ChannelError::Os(libc::ECONNRESET))
    );
    assert_eq!(receive_outcome(&l, 0, 0, None), Err(ChannelError::MissingDescriptor));
    assert_eq!(
        receive_outcome(&l, 1, 0, Some(RightsEntry { len: 16, fd: 3 })),
        Err(ChannelError::MissingDescriptor)
    );
}

#[test]
fn unsupported_spawn_fails_at_once() {
    let (s, a) = spawn_step(SpawnState::Start, SpawnEvent::Begin { supported: false });
    assert_eq!(s, SpawnState::Finished);
    assert_eq!(a, SpawnAction::Fail(SpawnError::Unsupported));
    let (s2, a2) = spawn_step(s, SpawnEvent::PairCreated);
    assert_eq!((s2, a2), (SpawnState::Finished, SpawnAction::Ignore));
    let (s3, a3) = spawn_step(s2, SpawnEvent::Launched { child_id: 4 });
    assert_eq!((s3, a3), (SpawnState::Finished, SpawnAction::Ignore));
}

#[test]
fn successful_spawn_pairs_child_and_descriptor() {
    let (s, a) = spawn_step(SpawnState::Start, SpawnEvent::Begin { supported: true });
    assert_eq!((s, a), (SpawnState::AwaitPair, SpawnAction::CreatePair));
    let (s, a) = spawn_step(s, SpawnEvent::PairCreated);
    assert_eq!((s, a), (SpawnState::AwaitLaunch, SpawnAction::Launch));
    let (s, a) = spawn_step(s, SpawnEvent::Launched { child_id: 4242 });
    assert_eq!((s, a), (SpawnState::AwaitDescriptor { child_id: 4242 }, SpawnAction::Receive));
    let (s, a) = spawn_step(s, SpawnEvent::Received(6));
    assert_eq!(
        (s, a),
        (SpawnState::Finished, SpawnAction::Deliver { child_id: 4242, pidfd: 6 })
    );
}

#[test]
fn spawn_setup_and_launch_errors() {
    let (s, a) = spawn_step(SpawnState::AwaitPair, SpawnEvent::PairFailed(libc::EMFILE));
    assert_eq!((s, a), (SpawnState::Finished, SpawnAction::Fail(SpawnError::Setup(libc::EMFILE))));
    let (s, a) = spawn_step(SpawnState::AwaitLaunch, SpawnEvent::LaunchFailed(libc::ENOENT));
    assert_eq!((s, a), (SpawnState::Finished, SpawnAction::Fail(SpawnError::Launch(libc::ENOENT))));
}

#[test]
fn spawn_receive_error_fails_spawn() {
    let st = SpawnState::AwaitDescriptor { child_id: 7 };
    let (s, a) = spawn_step(st, SpawnEvent::ReceiveFailed(ChannelError::MissingDescriptor));
    assert_eq!(
        (s, a),
        (SpawnState::Finished, SpawnAction::Fail(SpawnError::Channel(ChannelError::MissingDescriptor)))
    );
    let (_, a) = spawn_step(st, SpawnEvent::ReceiveFailed(ChannelError::Os(libc::ECONNRESET)));
    assert_eq!(a, SpawnAction::Fail(SpawnError::Channel(ChannelError::Os(libc::ECONNRESET))));
}

#[test]
fn spawn_ignores_out_of_order_events() {
    let (s, a) = spawn_step(SpawnState::Start, SpawnEvent::Received(3));
    assert_eq!((s, a), (SpawnState::Start, SpawnAction::Ignore));
    let (s, a) = spawn_step(SpawnState::AwaitPair, SpawnEvent::Launched { child_id: 1 });
    assert_eq!((s, a), (SpawnState::AwaitPair, SpawnAction::Ignore));
}

#[test]
fn hook_sends_descriptor_then_proceeds() {
    let (s, a) = hook_step(HookState::Start, HookEvent::Begin);
    assert_eq!((s, a), (HookState::AwaitPid, HookAction::QueryPid));
    let (s, a) = hook_step(s, HookEvent::Pid { pid: 321, errno: 0 });
    assert_eq!((s, a), (HookState::AwaitOpen, HookAction::OpenDescriptor { pid: 321 }));
    let (s, a) = hook_step(s, HookEvent::Opened { ret: 5, errno: 0 });
    assert_eq!((s, a), (HookState::AwaitSend, HookAction::SendDescriptor { fd: 5 }));
    let (s, a) = hook_step(s, HookEvent::Sent { ret: 1, errno: 0 });
    assert_eq!((s, a), (HookState::Finished, HookAction::Proceed));
}

#[test]
fn hook_failed_open_aborts() {
    let (s, a) = hook_step(HookState::AwaitOpen, HookEvent::Opened { ret: -1, errno: libc::EMFILE });
    assert_eq!((s, a), (HookState::Finished, HookAction::Abort(HookFailure::Os(libc::EMFILE))));
    let (s, a) = hook_step(s, HookEvent::Sent { ret: 1, errno: 0 });
    assert_eq!((s, a), (HookState::Finished, HookAction::Ignore));
}

#[test]
fn hook_other_failures() {
    let (_, a) = hook_step(HookState::AwaitPid, HookEvent::Pid { pid: -1, errno: libc::EPERM });
    assert_eq!(a, HookAction::Abort(HookFailure::Os(libc::EPERM)));
    let (_, a) = hook_step(HookState::AwaitOpen, HookEvent::Opened { ret: 1 << 40, errno: 0 });
    assert_eq!(a, HookAction::Abort(HookFailure::DescriptorOutOfRange));
    let (_, a) = hook_step(HookState::AwaitSend, HookEvent::Sent { ret: -1, errno: libc::EPIPE });
    assert_eq!(a, HookAction::Abort(HookFailure::Os(libc::EPIPE)));
}
