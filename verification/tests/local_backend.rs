use bytes::Bytes;
use sandbox::lifecycle::{
    PauseFidelity, SandboxBackendHealth, SandboxDestroyed, SandboxError, SandboxFailure,
    SandboxOutcome, SandboxState, SandboxTransitionCause, Timestamp,
};
use sandbox::local::backend::{
    image_path, usage_report, LocalSandboxBackend, Observation, StartStep, StopStep,
    PAUSE_UNSUPPORTED,
};
use sandbox::local::pipes::{
    BroadcastAsyncRead, BroadcastChannel, MpscAsyncWrite, ReadStep, RecvEvent,
};
use sandbox::local::record::{
    is_terminal, outcome_from_exit_status, reap_step, ChildProbe, ReapStep, SandboxRecord,
    REAP_POLL_INTERVAL_MILLIS, REAP_TIMEOUT_MILLIS,
};
use sandbox::local::resources::address_space_limit;
use sandbox::local::watch::{watch_step, WatchEvent, WatchStep};
use sandbox::string_map::StringMap;
use sandbox::types::{
    Deadline, ImageRef, SandboxEnv, SandboxId, SandboxResources, SandboxSpec, SandboxStorage,
};
use tokio::sync::{broadcast, mpsc};

fn spec(binary: &str) -> SandboxSpec {
    SandboxSpec {
        image: ImageRef::Tag(binary.to_string()),
        resources: SandboxResources {
            memory_mb: 1024,
            cpu_millis: 500,
            disk_mb: 64,
            max_pids: 16,
        },
        env: SandboxEnv {
            vars: StringMap::new(),
            secrets: StringMap::new(),
        },
        storage: SandboxStorage {
            workspace_mb: 16,
            seed: Vec::new(),
            state_volume: None,
        },
        deadline: Deadline::from_secs(30),
        labels: StringMap::new(),
    }
}

const NOW: Timestamp = Timestamp(1);

fn running() -> ChildProbe {
    ChildProbe::StillRunning
}

/// Creates a sandbox whose process is `pid`.
fn create(backend: &mut LocalSandboxBackend, binary: &str, pid: u32) -> SandboxId {
    let plan = match LocalSandboxBackend::plan_create(&spec(binary), false) {
        Ok(plan) => plan,
        Err(_) => panic!("the plan is refused"),
    };
    assert_eq!(plan.program, binary);
    match LocalSandboxBackend::after_start(Ok(pid), false) {
        StartStep::Register(pid) => backend.finish_create(pid, NOW),
        _ => panic!("the sandbox is not created"),
    }
}

/// Stops a sandbox, killing its process where that is asked for.
fn stop(backend: &mut LocalSandboxBackend, id: &SandboxId) -> Result<(), SandboxError> {
    match backend.stop(id, false, running(), NOW) {
        StopStep::Done(result) => result,
        StopStep::KillThenComplete => {
            backend.complete_stop(id, NOW)
        }
    }
}

#[test]
fn stop_and_destroy_are_idempotent() {
    let mut backend = LocalSandboxBackend::new();
    let id = create(&mut backend, "/usr/bin/cat", 7);

    stop(&mut backend, &id).unwrap();
    // Second stop on an already-stopped sandbox: idempotent, not an error.
    stop(&mut backend, &id).unwrap();

    let status = backend.status(&id, running(), NOW).unwrap();
    assert_eq!(status.state, SandboxState::Stopped);

    let first_destroy = backend.destroy(&id).result;
    assert!(matches!(first_destroy, SandboxDestroyed::Destroyed));

    // Second destroy on an already-gone sandbox: idempotent, reports Leaked.
    let second_destroy = backend.destroy(&id).result;
    assert!(matches!(second_destroy, SandboxDestroyed::Leaked));

    let status_after = backend.status(&id, running(), NOW);
    assert!(matches!(status_after, Err(SandboxError::NotFound(_))));
}

#[test]
fn pause_and_resume_on_a_terminal_sandbox_return_terminal_error() {
    let mut backend = LocalSandboxBackend::new();
    let id = create(&mut backend, "/usr/bin/cat", 7);
    stop(&mut backend, &id).unwrap();

    let pause_result = backend.pause(&id, false, running(), NOW);
    assert!(matches!(pause_result, Err(SandboxError::Terminal(_))));

    let resume_result = backend.resume(&id, false, running(), NOW);
    assert!(matches!(resume_result, Err(SandboxError::Terminal(_))));

    backend.destroy(&id);
}

#[test]
fn pause_on_a_running_sandbox_returns_unsupported_not_terminal() {
    let mut backend = LocalSandboxBackend::new();
    let id = create(&mut backend, "/usr/bin/cat", 7);

    let pause_result = backend.pause(&id, false, running(), NOW);
    assert!(matches!(pause_result, Err(SandboxError::Unsupported(_))));

    backend.destroy(&id);
}

#[test]
fn cancel_before_create_leaves_no_orphaned_process() {
    let mut backend = LocalSandboxBackend::new();

    let result = LocalSandboxBackend::plan_create(&spec("/usr/bin/cat"), true);
    assert!(matches!(result, Err(SandboxError::Cancelled)));

    let discovered = backend.discover(&Vec::new(), NOW);
    assert!(discovered.is_empty());
}

fn take_event(rx: &mut Option<broadcast::Receiver<Bytes>>) -> RecvEvent {
    match rx.as_mut().unwrap().try_recv() {
        Ok(bytes) => RecvEvent::Received(bytes),
        Err(broadcast::error::TryRecvError::Empty) => RecvEvent::Pending,
        Err(broadcast::error::TryRecvError::Lagged(n)) => RecvEvent::Lagged(n),
        Err(broadcast::error::TryRecvError::Closed) => RecvEvent::Closed,
    }
}

/// Reads into `buf`: so many bytes, or `None` where there is nothing yet.
fn read(
    reader: &mut BroadcastAsyncRead,
    rx: &mut Option<broadcast::Receiver<Bytes>>,
    buf: &mut [u8],
) -> Option<usize> {
    loop {
        let step = match reader.advance(buf) {
            ReadStep::PollRecv => reader.on_recv(take_event(rx)),
            step => step,
        };
        match step {
            ReadStep::Ready(n) => return Some(n),
            ReadStep::Suspend => return None,
            _ => {}
        }
    }
}

fn open_reader(
    channel: &BroadcastChannel,
) -> (BroadcastAsyncRead, Option<broadcast::Receiver<Bytes>>) {
    let subscription = channel.subscribe();
    let reader = BroadcastAsyncRead::new(&subscription);
    (reader, subscription.map(|s| s.into_receiver()))
}

#[test]
fn open_io_called_twice_returns_working_io_both_times() {
    let mut backend = LocalSandboxBackend::new();
    let id = create(&mut backend, "/usr/bin/cat", 7);
    let (stdin_tx, mut stdin_rx) = mpsc::unbounded_channel::<Bytes>();
    let mut stdout = BroadcastChannel::new();

    // The backend enforces no once-only discipline: both calls must succeed and both
    // must observe the same output, since stdout is fanned out to every subscriber
    // rather than split between them.
    assert_eq!(backend.open_io(&id).unwrap(), 0);
    let mut first_stdin = MpscAsyncWrite::new(stdin_tx.clone());
    let mut first = open_reader(&stdout);
    assert_eq!(backend.open_io(&id).unwrap(), 0);
    let mut second = open_reader(&stdout);

    assert_eq!(first_stdin.write(b"ping\n"), Ok(5));
    assert_eq!(first_stdin.flush(), Ok(()));

    // The process writes out what it reads.
    let echoed = stdin_rx.try_recv().unwrap();
    assert!(stdout.pump(&echoed, Ok(echoed.len())));

    let mut first_buf = [0u8; 5];
    assert_eq!(read(&mut first.0, &mut first.1, &mut first_buf), Some(5));
    assert_eq!(&first_buf, b"ping\n");

    let mut second_buf = [0u8; 5];
    assert_eq!(read(&mut second.0, &mut second.1, &mut second_buf), Some(5));
    assert_eq!(&second_buf, b"ping\n");

    backend.destroy(&id);
}

#[test]
fn self_exiting_process_is_observed_as_stopped() {
    let mut backend = LocalSandboxBackend::new();
    let id = create(&mut backend, "/usr/bin/true", 7);

    let early = backend.status(&id, running(), NOW).unwrap();
    assert_eq!(early.state, SandboxState::Running);
    let status = backend.status(&id, ChildProbe::Exited(Some(0)), Timestamp(9)).unwrap();
    assert_eq!(status.state, SandboxState::Stopped);
    assert_eq!(status.outcome, Some(SandboxOutcome::Exited(0)));
    assert_eq!(status.state_since, Timestamp(9));
    assert_eq!(status.created_at, NOW);
    assert_eq!(status.seq, 1);

    let destroyed = backend.destroy(&id);
    // The record was found (just already self-stopped), so this is a normal Destroyed.
    assert!(matches!(destroyed.result, SandboxDestroyed::Destroyed));
    assert!(!destroyed.kill);
}

#[test]
fn unknown_id_is_not_found_everywhere_it_should_be() {
    let mut backend = LocalSandboxBackend::new();
    let bogus = SandboxId::new("local-does-not-exist");

    assert!(matches!(backend.status(&bogus, running(), NOW), Err(SandboxError::NotFound(_))));
    assert!(matches!(backend.open_io(&bogus), Err(SandboxError::NotFound(_))));
    assert!(matches!(stop(&mut backend, &bogus), Err(SandboxError::NotFound(_))));
    assert!(matches!(backend.destroy(&bogus).result, SandboxDestroyed::Leaked));
    assert!(matches!(backend.usage_pid(&bogus), Err(SandboxError::NotFound(_))));
    assert!(matches!(
        backend.pause(&bogus, false, running(), NOW),
        Err(SandboxError::NotFound(_))
    ));
    assert!(backend.subscribe(&bogus).is_none());
    assert!(!backend.needs_probe(&bogus));
}

#[test]
fn the_plan_is_the_whole_process() {
    let mut wanted = spec("/usr/bin/env");
    wanted.env.vars.insert("B".to_string(), "2".to_string());
    wanted.env.vars.insert("A".to_string(), "1".to_string());
    let plan = match LocalSandboxBackend::plan_create(&wanted, false) {
        Ok(plan) => plan,
        Err(_) => panic!("the plan is refused"),
    };
    assert_eq!(image_path(&wanted.image), "/usr/bin/env");
    assert_eq!(plan.program, "/usr/bin/env");
    assert_eq!(plan.address_space, 1_073_741_824);
    assert_eq!(address_space_limit(u32::MAX), 4_503_599_626_321_920);
    assert_eq!(
        plan.environment,
        vec![
            ("A".to_string(), "1".to_string()),
            ("B".to_string(), "2".to_string()),
        ]
    );
}

#[test]
fn a_process_that_cannot_be_started_fails_the_creation() {
    let err = std::io::Error::new(std::io::ErrorKind::NotFound, "no such program");
    match LocalSandboxBackend::after_start(Err(err), false) {
        StartStep::Fail(SandboxError::Backend(err)) => {
            assert_eq!(err.to_string(), "no such program");
        }
        _ => panic!("creating succeeds"),
    }
}

#[test]
fn a_cancel_after_the_start_has_the_process_killed() {
    assert!(matches!(
        LocalSandboxBackend::after_start(Ok(7), true),
        StartStep::KillThenFail(SandboxError::Cancelled)
    ));
}

#[test]
fn looking_at_sandboxes_does_not_cut_watchers_off() {
    let mut backend = LocalSandboxBackend::new();
    let a = create(&mut backend, "/usr/bin/cat", 7);
    let b = create(&mut backend, "/usr/bin/cat", 8);
    let mut rx = backend.subscribe(&a).unwrap().into_receiver();
    backend.status(&a, running(), NOW).unwrap();
    assert!(backend.pause(&a, false, running(), NOW).is_err());
    assert!(backend.resume(&a, false, running(), NOW).is_ok());
    backend.discover(&Vec::new(), NOW);
    stop(&mut backend, &b).unwrap();
    backend.destroy(&b);
    let failed = ChildProbe::WaitFailed("gone".to_string());
    backend.discover(&vec![Observation { id: a.clone(), probe: failed }], Timestamp(6));
    let event = rx.try_recv().unwrap();
    assert_eq!(event.seq, 1);
    assert_eq!(event.at, Timestamp(6));
    assert_eq!(event.cause, SandboxTransitionCause::BackendReported);
    assert!(is_terminal(&event.state));
}

#[test]
fn a_cancelled_operation_changes_nothing() {
    let mut backend = LocalSandboxBackend::new();
    let id = create(&mut backend, "/usr/bin/cat", 7);
    let over = ChildProbe::Exited(None);
    assert!(matches!(
        backend.stop(&id, true, over.clone(), NOW),
        StopStep::Done(Err(SandboxError::Cancelled))
    ));
    assert!(matches!(
        backend.pause(&id, true, over.clone(), NOW),
        Err(SandboxError::Cancelled)
    ));
    assert!(matches!(backend.resume(&id, true, over, NOW), Err(SandboxError::Cancelled)));
    assert!(backend.needs_probe(&id));
    assert_eq!(backend.status(&id, running(), NOW).unwrap().state, SandboxState::Running);
}

#[test]
fn resume_on_a_running_sandbox_does_nothing() {
    let mut backend = LocalSandboxBackend::new();
    let id = create(&mut backend, "/usr/bin/cat", 7);
    let mut rx = backend.subscribe(&id).unwrap().into_receiver();
    let before = backend.status(&id, running(), NOW).unwrap();
    assert!(backend.resume(&id, false, running(), Timestamp(8)).is_ok());
    assert_eq!(backend.status(&id, running(), NOW).unwrap(), before);
    assert!(rx.try_recv().is_err());
}

#[test]
fn resume_finds_out_that_the_process_is_over() {
    let mut backend = LocalSandboxBackend::new();
    let id = create(&mut backend, "/usr/bin/cat", 7);
    match backend.resume(&id, false, ChildProbe::Exited(Some(0)), NOW) {
        Err(SandboxError::Terminal(state)) => assert_eq!(state, SandboxState::Stopped),
        _ => panic!("a stopped sandbox is resumed"),
    }
    let bogus = SandboxId::new("local-8");
    assert!(matches!(
        backend.resume(&bogus, false, running(), NOW),
        Err(SandboxError::NotFound(_))
    ));
}

#[test]
fn a_refused_pause_says_why() {
    let mut backend = LocalSandboxBackend::new();
    let id = create(&mut backend, "/usr/bin/cat", 7);
    match backend.pause(&id, false, running(), NOW) {
        Err(SandboxError::Unsupported(why)) => assert_eq!(why, PAUSE_UNSUPPORTED),
        _ => panic!("pausing is not refused"),
    }
    assert_eq!(
        PAUSE_UNSUPPORTED,
        "sandbox-local: pause_fidelity is None (RFC open question 4)"
    );
}

#[test]
fn a_feed_is_of_the_sandbox_asked_for() {
    let mut backend = LocalSandboxBackend::new();
    let a = create(&mut backend, "/usr/bin/cat", 7);
    let b = create(&mut backend, "/usr/bin/cat", 8);
    let feed = backend.subscribe(&b).unwrap();
    assert_eq!(feed.pid(), 8);
    let mut rx = feed.into_receiver();
    stop(&mut backend, &a).unwrap();
    assert!(rx.try_recv().is_err());
    stop(&mut backend, &b).unwrap();
    assert!(rx.try_recv().unwrap().id.same(&b));
}

#[test]
fn stop_wins_over_pause_in_either_order() {
    let mut backend = LocalSandboxBackend::new();
    let first = create(&mut backend, "/usr/bin/cat", 7);
    assert!(backend.pause(&first, false, running(), NOW).is_err());
    stop(&mut backend, &first).unwrap();
    assert!(backend.pause(&first, false, running(), NOW).is_err());
    let status = backend.status(&first, running(), NOW).unwrap();
    assert_eq!(status.state, SandboxState::Stopped);
    assert_eq!(status.outcome, Some(SandboxOutcome::Killed));
}

#[test]
fn a_terminal_state_is_final() {
    let mut backend = LocalSandboxBackend::new();
    let id = create(&mut backend, "/usr/bin/false", 7);
    backend.status(&id, ChildProbe::Exited(Some(3)), Timestamp(2)).unwrap();
    assert!(!backend.needs_probe(&id));
    let later = ChildProbe::WaitFailed("gone".to_string());
    let status = backend.status(&id, later, Timestamp(5)).unwrap();
    assert_eq!(status.state, SandboxState::Stopped);
    assert_eq!(status.outcome, Some(SandboxOutcome::Exited(3)));
    assert_eq!(status.state_since, Timestamp(2));
    assert_eq!(status.seq, 1);
    assert!(stop(&mut backend, &id).is_ok());
    assert_eq!(backend.status(&id, running(), NOW).unwrap().seq, 1);
}

#[test]
fn a_look_that_fails_is_a_failure_of_the_backend() {
    let mut backend = LocalSandboxBackend::new();
    let id = create(&mut backend, "/usr/bin/cat", 7);
    let probe = ChildProbe::WaitFailed("no child".to_string());
    let status = backend.status(&id, probe, NOW).unwrap();
    assert_eq!(
        status.state,
        SandboxState::Failed(SandboxFailure::Backend("no child".to_string()))
    );
    assert_eq!(status.outcome, None);
    match backend.pause(&id, false, running(), NOW) {
        Err(SandboxError::Terminal(state)) => assert_eq!(state, status.state),
        _ => panic!("a failed sandbox is not terminal"),
    }
}

#[test]
fn sandboxes_do_not_disturb_each_other() {
    let mut backend = LocalSandboxBackend::new();
    let a = create(&mut backend, "/usr/bin/cat", 7);
    let b = create(&mut backend, "/usr/bin/cat", 8);
    assert_eq!(a.as_str(), "local-7");
    assert_eq!(b.as_str(), "local-8");
    stop(&mut backend, &a).unwrap();
    assert_eq!(backend.status(&b, running(), NOW).unwrap().state, SandboxState::Running);
    backend.destroy(&a);
    assert_eq!(backend.usage_pid(&b).unwrap(), 8);
    let teardown = backend.destroy(&b);
    assert!(teardown.kill);
}

#[test]
fn every_sandbox_is_discovered_once_with_its_process() {
    let mut backend = LocalSandboxBackend::new();
    let a = create(&mut backend, "/usr/bin/cat", 7);
    let b = create(&mut backend, "/usr/bin/cat", 8);
    let seen = vec![Observation { id: b.clone(), probe: ChildProbe::Exited(Some(0)) }];
    let found = backend.discover(&seen, NOW);
    assert_eq!(found.len(), 2);
    for one in &found {
        assert_eq!(one.backend_id.as_str(), "local");
        if one.id.same(&a) {
            assert_eq!(one.state, SandboxState::Running);
            assert_eq!(one.artifacts.pid, Some(7));
        } else {
            assert!(one.id.same(&b));
            assert_eq!(one.state, SandboxState::Stopped);
            assert_eq!(one.artifacts.pid, Some(8));
        }
        assert!(one.artifacts.pod_name.is_none());
    }
}

#[test]
fn a_reused_process_number_starts_afresh() {
    let mut backend = LocalSandboxBackend::new();
    let old = create(&mut backend, "/usr/bin/cat", 7);
    stop(&mut backend, &old).unwrap();
    let new = create(&mut backend, "/usr/bin/cat", 7);
    assert!(new.same(&old));
    assert_eq!(backend.status(&new, running(), NOW).unwrap().seq, 0);
    assert_eq!(backend.discover(&Vec::new(), NOW).len(), 1);
}

#[test]
fn the_backend_says_what_it_can_do() {
    let backend = LocalSandboxBackend::new();
    assert_eq!(backend.id().as_str(), "local");
    let capabilities = backend.capabilities();
    assert_eq!(capabilities.pause_fidelity, PauseFidelity::NoPause);
    assert!(!capabilities.state_volumes);
    assert!(!capabilities.warm_pool);
    assert!(!capabilities.gpu);
    assert_eq!(capabilities.max_memory_mb, u32::MAX);
    assert!(matches!(
        backend.health(),
        SandboxBackendHealth::Ready { available_slots: None }
    ));
}

#[test]
fn usage_tells_the_memory_and_one_process() {
    let usage = usage_report(Some("Name:\tcat\nVmRSS:\t 12288 kB\n"));
    assert_eq!(usage.memory_mb, 12);
    assert_eq!(usage.cpu_millis, 0);
    assert_eq!(usage.disk_mb, 0);
    assert_eq!(usage.pids, 1);
    assert_eq!(usage_report(Some("Name:\tcat\n")).memory_mb, 0);
    assert_eq!(usage_report(None).memory_mb, 0);
}

#[test]
fn a_subscriber_is_told_of_what_happens_next() {
    let mut backend = LocalSandboxBackend::new();
    let id = create(&mut backend, "/usr/bin/cat", 7);
    let mut rx = backend.subscribe(&id).unwrap().into_receiver();
    assert!(rx.try_recv().is_err());
    assert!(matches!(
        backend.stop(&id, false, running(), NOW),
        StopStep::KillThenComplete
    ));
    backend.complete_stop(&id, Timestamp(4)).unwrap();
    let event = rx.try_recv().unwrap();
    assert!(event.id.same(&id));
    assert_eq!(event.seq, 1);
    assert_eq!(event.at, Timestamp(4));
    assert_eq!(event.state, SandboxState::Stopped);
    assert_eq!(event.cause, SandboxTransitionCause::Requested);
    // A late subscriber hears nothing of it.
    let mut late = backend.subscribe(&id).unwrap().into_receiver();
    assert!(matches!(late.try_recv(), Err(broadcast::error::TryRecvError::Empty)));
    // With the sandbox gone, the stream ends.
    backend.destroy(&id);
    assert!(matches!(rx.try_recv(), Err(broadcast::error::TryRecvError::Closed)));
}

#[test]
fn a_record_numbers_its_events() {
    let id = SandboxId::new("local-7");
    let mut record = SandboxRecord::new(7, NOW);
    let mut rx = record.subscribe().into_receiver();
    record.refresh(&id, running(), Timestamp(2));
    assert_eq!(record.seq(), 0);
    record.mark_stopped_by(&id, SandboxOutcome::Killed, Timestamp(3));
    assert_eq!(record.seq(), 1);
    assert_eq!(record.pid(), 7);
    assert_eq!(record.created_at(), NOW);
    assert_eq!(record.state_since(), Timestamp(3));
    assert_eq!(record.outcome(), Some(SandboxOutcome::Killed));
    assert!(is_terminal(record.state()));
    record.refresh(&id, ChildProbe::Exited(Some(0)), Timestamp(4));
    assert_eq!(rx.try_recv().unwrap().seq, 1);
    assert!(rx.try_recv().is_err());
}

#[test]
fn exits_and_signals_are_told_apart() {
    assert_eq!(outcome_from_exit_status(Some(2)), SandboxOutcome::Exited(2));
    assert_eq!(outcome_from_exit_status(None), SandboxOutcome::Killed);
    assert!(!is_terminal(&SandboxState::Paused));
    assert!(!is_terminal(&SandboxState::Stopping));
    assert!(is_terminal(&SandboxState::Destroyed));
    assert!(is_terminal(&SandboxState::Failed(SandboxFailure::OutOfMemory)));
}

#[test]
fn a_killed_process_is_waited_for_a_while() {
    assert_eq!(REAP_TIMEOUT_MILLIS, 5000);
    assert_eq!(REAP_POLL_INTERVAL_MILLIS, 20);
    assert_eq!(reap_step(&ChildProbe::Exited(None), 9999), ReapStep::Reaped(None));
    assert_eq!(reap_step(&running(), 0), ReapStep::LookAgainIn(20));
    assert_eq!(reap_step(&running(), 4990), ReapStep::LookAgainIn(10));
    assert_eq!(reap_step(&running(), 5000), ReapStep::GiveUp);
    let failed = ChildProbe::WaitFailed(String::new());
    assert_eq!(reap_step(&failed, 0), ReapStep::LookAgainIn(20));
}

#[test]
fn a_watch_filters_and_ends() {
    let id = SandboxId::new("local-7");
    let mut record = SandboxRecord::new(7, NOW);
    let mut rx = record.subscribe().into_receiver();
    record.mark_stopped_by(&id, SandboxOutcome::Killed, NOW);
    let event = rx.try_recv().unwrap();
    match watch_step(0, WatchEvent::Received(event.clone())) {
        WatchStep::Emit(given) => assert_eq!(given.seq, 1),
        _ => panic!("the event is lost"),
    }
    assert!(matches!(watch_step(1, WatchEvent::Received(event)), WatchStep::Wait));
    assert!(matches!(watch_step(0, WatchEvent::Subscribed), WatchStep::Wait));
    assert!(matches!(watch_step(0, WatchEvent::Lagged(3)), WatchStep::Wait));
    assert!(matches!(watch_step(7, WatchEvent::Lagged(u64::MAX)), WatchStep::Wait));
    assert!(matches!(watch_step(0, WatchEvent::UnknownSandbox), WatchStep::End));
    assert!(matches!(watch_step(0, WatchEvent::Closed), WatchStep::End));
}

#[test]
fn a_record_keeps_room_for_sixty_four_events() {
    let id = SandboxId::new("local-7");
    let mut record = SandboxRecord::new(7, NOW);
    let mut rx = record.subscribe().into_receiver();
    for _ in 0..65 {
        record.mark_stopped_by(&id, SandboxOutcome::Killed, NOW);
    }
    assert!(matches!(rx.try_recv(), Err(broadcast::error::TryRecvError::Lagged(1))));
    assert_eq!(rx.try_recv().unwrap().seq, 2);
}

#[test]
fn a_watch_gives_the_events_of_its_sandbox() {
    let id = SandboxId::new("local-7");
    let mut record = SandboxRecord::new(7, NOW);
    record.mark_stopped_by(&id, SandboxOutcome::Killed, NOW);
    let mut rx = record.subscribe().into_receiver();
    for _ in 0..3 {
        record.mark_stopped_by(&id, SandboxOutcome::Killed, NOW);
    }
    // Subscribed after the first event, and asked for those after the second.
    let mut given = Vec::new();
    while let Ok(event) = rx.try_recv() {
        if let WatchStep::Emit(event) = watch_step(2, WatchEvent::Received(event)) {
            given.push(event.seq);
        }
    }
    assert_eq!(given, vec![3, 4]);
}
