use live_data::shutdown::{ExitKind, Phase, ShutdownAction, ShutdownCoordinator, ShutdownEvent};

#[test]
fn running_process_goes_on() {
    let mut coordinator = ShutdownCoordinator::new(5000);
    assert_eq!(coordinator.current(), Phase::Running);
    assert_eq!(coordinator.handle(ShutdownEvent::TimePassed(60000)), ShutdownAction::Continue);
    assert_eq!(coordinator.handle(ShutdownEvent::CollectionDone), ShutdownAction::Continue);
    assert_eq!(coordinator.current(), Phase::Running);
}

#[test]
fn signal_starts_the_wait() {
    let mut coordinator = ShutdownCoordinator::new(5000);
    assert_eq!(coordinator.handle(ShutdownEvent::Signal), ShutdownAction::Wait(5000));
    assert_eq!(coordinator.current(), Phase::Draining { waited_ms: 0 });
    assert_eq!(coordinator.handle(ShutdownEvent::Signal), ShutdownAction::Wait(5000));
}

#[test]
fn collection_done_in_time_is_a_clean_exit() {
    let mut coordinator = ShutdownCoordinator::new(5000);
    coordinator.handle(ShutdownEvent::Signal);
    assert_eq!(coordinator.handle(ShutdownEvent::TimePassed(1200)), ShutdownAction::Wait(3800));
    assert_eq!(
        coordinator.handle(ShutdownEvent::CollectionDone),
        ShutdownAction::Exit(ExitKind::Clean)
    );
    assert_eq!(coordinator.current(), Phase::Finished(ExitKind::Clean));
}

#[test]
fn deadline_ends_the_wait() {
    let mut coordinator = ShutdownCoordinator::new(5000);
    coordinator.handle(ShutdownEvent::Signal);
    assert_eq!(coordinator.handle(ShutdownEvent::TimePassed(4999)), ShutdownAction::Wait(1));
    assert_eq!(
        coordinator.handle(ShutdownEvent::TimePassed(1)),
        ShutdownAction::Exit(ExitKind::DeadlinePassed)
    );
    assert_eq!(
        coordinator.handle(ShutdownEvent::CollectionDone),
        ShutdownAction::Exit(ExitKind::DeadlinePassed)
    );
}

#[test]
fn long_pause_does_not_overflow() {
    let mut coordinator = ShutdownCoordinator::new(u64::MAX);
    coordinator.handle(ShutdownEvent::Signal);
    assert_eq!(coordinator.handle(ShutdownEvent::TimePassed(u64::MAX - 1)), ShutdownAction::Wait(1));
    assert_eq!(
        coordinator.handle(ShutdownEvent::TimePassed(u64::MAX)),
        ShutdownAction::Exit(ExitKind::DeadlinePassed)
    );
}

#[test]
fn zero_deadline_exits_at_once() {
    let mut coordinator = ShutdownCoordinator::new(0);
    assert_eq!(
        coordinator.handle(ShutdownEvent::Signal),
        ShutdownAction::Exit(ExitKind::DeadlinePassed)
    );
}

#[test]
fn finished_stays_finished() {
    let mut coordinator = ShutdownCoordinator::new(10);
    coordinator.handle(ShutdownEvent::Signal);
    coordinator.handle(ShutdownEvent::CollectionDone);
    for event in [ShutdownEvent::Signal, ShutdownEvent::TimePassed(100), ShutdownEvent::CollectionDone] {
        assert_eq!(coordinator.handle(event), ShutdownAction::Exit(ExitKind::Clean));
    }
}
