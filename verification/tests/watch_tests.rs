use copydog::config::{assemble_config, Config, FileType};
use copydog::watch::{on_event, CopyAction, WatchError, WatchState, Watcher};

fn local_config() -> Config {
    assemble_config(".".to_string(), vec![])
}

#[test]
fn new_watcher_is_idle() {
    let w = Watcher::new(local_config());
    assert_eq!(w.state(), WatchState::Idle);
}

#[test]
fn stop_before_start_is_not_watching() {
    let mut w = Watcher::new(local_config());
    assert_eq!(w.stop(), Err(WatchError::NotWatching));
    assert_eq!(w.state(), WatchState::Idle);
}

#[test]
fn second_start_without_stop_is_already_watching() {
    let mut w = Watcher::new(local_config());
    let rx = w.start();
    assert!(rx.is_ok());
    assert_eq!(w.state(), WatchState::Watching);
    match w.start() {
        Err(WatchError::AlreadyWatching) => {}
        other => panic!("expected AlreadyWatching, got {:?}", other.map(|_| ())),
    }
    assert_eq!(w.state(), WatchState::Watching);
    assert_eq!(w.stop(), Ok(()));
}

#[test]
fn lifecycle_is_restartable() {
    let mut w = Watcher::new(local_config());
    assert!(w.start().is_ok());
    assert_eq!(w.stop(), Ok(()));
    assert_eq!(w.state(), WatchState::Idle);
    let again = w.start();
    assert!(again.is_ok());
    assert_eq!(w.state(), WatchState::Watching);
    assert_eq!(w.stop(), Ok(()));
    assert_eq!(w.state(), WatchState::Idle);
}

#[test]
fn start_on_missing_source_fails_monitor_init() {
    let config = assemble_config("/no/such/folder/anywhere".to_string(), vec![]);
    let mut w = Watcher::new(config);
    match w.start() {
        Err(WatchError::MonitorInit) => {}
        other => panic!("expected MonitorInit, got {:?}", other.map(|_| ())),
    }
    assert_eq!(w.state(), WatchState::Failed);
    assert_eq!(w.stop(), Err(WatchError::NotWatching));
}

#[test]
fn stopping_drops_the_channel_sender() {
    let mut w = Watcher::new(local_config());
    let rx = w.start().expect("start succeeds");
    assert_eq!(w.stop(), Ok(()));
    // the monitor and its sender are gone: the stream reports closure
    match rx.recv() {
        Err(_) => {}
        Ok(_) => panic!("no event was produced, the channel should be closed"),
    }
}

#[test]
fn routed_notification_reaches_the_receiver() {
    let rules = vec![(
        "png".to_string(),
        FileType { target: "/dest/textures".to_string(), ignore: None },
    )];
    let config = assemble_config("/src".to_string(), rules);
    let (tx, rx) = std::sync::mpsc::channel::<CopyAction>();

    let ev = notify::Event::new(notify::EventKind::Create(notify::event::CreateKind::File))
        .add_path(std::path::PathBuf::from("/src/foo.png"));
    on_event(&ev, &config, &tx);

    let action = rx.try_recv().expect("one copy action");
    assert_eq!(action.from, "/src/foo.png");
    assert_eq!(action.to, "/dest/textures/foo.png");

    let ignored = notify::Event::new(notify::EventKind::Remove(notify::event::RemoveKind::File))
        .add_path(std::path::PathBuf::from("/src/foo.png"));
    on_event(&ignored, &config, &tx);
    assert!(rx.try_recv().is_err());
}
