//! The watcher lifecycle and the event router.
//!
//! A [`Watcher`] owns one monitor on the configured source directory and
//! moves between three states: idle, watching, and failed. Starting it
//! installs a recursive monitor whose notifications are routed by
//! [`route`]: the pure decision from an event and the configuration to
//! the copy to perform, if any. The resulting [`CopyAction`]s are
//! delivered over a channel; the caller drains it and performs the
//! copies, so a failing copy never stops the monitoring itself.
//!
//! Notifications are delivered as the monitor reports them, without
//! debouncing or coalescing: a burst of modifications may yield one copy
//! per notification, the last one winning at the destination.

use vstd::prelude::*;

use std::sync::mpsc::{Receiver, Sender};

use crate::config::Config;
use crate::pathname::{
    contained_in, extension, file_name, join, spec_contained_in, spec_extension, spec_file_name,
    spec_join,
};

verus! {

/// How starting or stopping a watch can fail, and how a single copy can.
#[derive(Debug, Clone, PartialEq, Eq)]
pub enum WatchError {
    /// Installing the monitor on the source directory failed.
    MonitorInit,
    /// `start` was called while the watcher was already watching.
    AlreadyWatching,
    /// `stop` was called while the watcher was not watching.
    NotWatching,
    /// One copy failed; the detail names the file. Local to the event:
    /// routing continues.
    Copy(String),
}

/// The kinds of notification the router distinguishes: only created and
/// modified files are actionable.
#[derive(Debug, Clone, Copy, PartialEq, Eq, Structural)]
pub enum EventKind {
    Create,
    Modify,
    Other,
}

/// A filesystem notification reduced to plain values: its kind and its
/// paths, each `None` when it was not valid text.
#[derive(Debug, Clone, PartialEq)]
pub struct PlainEvent {
    pub kind: EventKind,
    pub paths: Vec<Option<String>>,
}

/// The copy a routed event asks for: the file that changed and the
/// destination it is copied to.
#[derive(Debug, Clone, PartialEq)]
pub struct CopyAction {
    pub from: String,
    pub to: String,
}

/// Mathematical value of a [`CopyAction`].
pub struct CopyActionView {
    pub from: Seq<char>,
    pub to: Seq<char>,
}

impl View for CopyAction {
    type V = CopyActionView;

    open spec fn view(&self) -> CopyActionView {
        CopyActionView { from: self.from@, to: self.to@ }
    }
}

/// Whether one of the directories contains `p`.
pub open spec fn spec_suppressed_by(p: Seq<char>, dirs: Seq<Seq<char>>) -> bool {
    exists|i: int| 0 <= i < dirs.len() && #[trigger] spec_contained_in(p, dirs[i])
}

/// Whether a path is suppressed by a rule's ignore list: it equals one of
/// the ignored directories or lies underneath one.
pub open spec fn spec_suppressed(p: Seq<char>, ignore: Option<Seq<Seq<char>>>) -> bool {
    match ignore {
        None => false,
        Some(dirs) => spec_suppressed_by(p, dirs),
    }
}

/// The routing decision for an event: the copy to perform, or nothing.
///
/// Only created and modified events with at least one textual path are
/// considered; the first path must have an extension governed by a rule
/// (its own, or the wildcard); a path under one of the rule's ignored
/// directories is suppressed. The destination is the rule's target
/// directory joined with the file's name.
pub open spec fn spec_route(ev: PlainEvent, cfg: Config) -> Option<CopyActionView> {
    if !(ev.kind is Create || ev.kind is Modify) {
        None
    } else if ev.paths@.len() == 0 {
        None
    } else {
        match ev.paths@[0] {
            None => None,
            Some(p) => match spec_extension(p@) {
                None => None,
                Some(ext) => match cfg.spec_rule_for(ext) {
                    None => None,
                    Some(ft) => if spec_suppressed(p@, ft.ignore) {
                        None
                    } else {
                        Some(
                            CopyActionView {
                                from: p@,
                                to: spec_join(ft.target, spec_file_name(p@)),
                            },
                        )
                    },
                },
            },
        }
    }
}

/// Decide what an event asks for, without touching the filesystem.
#[verifier::loop_isolation(false)]
pub fn route(event: &PlainEvent, config: &Config) -> (r: Option<CopyAction>)
    ensures
        match r {
            Some(a) => spec_route(*event, *config) == Some(a@),
            None => spec_route(*event, *config) is None,
        },
{
    match event.kind {
        EventKind::Create => {},
        EventKind::Modify => {},
        EventKind::Other => {
            return None;
        },
    }
    if event.paths.len() == 0 {
        return None;
    }
    let p: &String = match &event.paths[0] {
        None => {
            return None;
        },
        Some(p) => p,
    };
    let ext: String = match extension(p.as_str()) {
        None => {
            return None;
        },
        Some(e) => e,
    };
    let ft = match config.rule_for(ext.as_str()) {
        None => {
            return None;
        },
        Some(ft) => ft,
    };
    if let Some(dirs) = &ft.ignore {
        let n = dirs.len();
        let mut i: usize = 0;
        while i < n
            invariant
                i <= n,
                forall|j: int| 0 <= j < i ==> !spec_contained_in(p@, dirs.deep_view()[j]),
            decreases n - i,
        {
            if contained_in(p.as_str(), dirs[i].as_str()) {
                proof {
                    assert(dirs.deep_view()[i as int] == dirs@[i as int]@);
                    assert(spec_contained_in(p@, dirs.deep_view()[i as int]));
                    assert(spec_suppressed_by(p@, dirs.deep_view()));
                }
                return None;
            }
            proof {
                assert(dirs.deep_view()[i as int] == dirs@[i as int]@);
            }
            i = i + 1;
        }
    }
    let name = file_name(p.as_str());
    Some(CopyAction { from: p.clone(), to: join(ft.target.as_str(), name) })
}

/// The lifecycle states of a [`Watcher`].
#[derive(Debug, Clone, Copy, PartialEq, Eq, Structural)]
pub enum WatchState {
    /// Constructed or stopped; not watching.
    Idle,
    /// Monitor installed; notifications are being routed.
    Watching,
    /// Installing the monitor failed; `start` may be retried.
    Failed,
}

/// One `start` call as a step of the lifecycle state machine: the state
/// after it and the error it reports, given whether the monitor could be
/// installed.
pub open spec fn spec_start_step(s: WatchState, monitor_ok: bool) -> (WatchState, Option<
    WatchError,
>) {
    match s {
        WatchState::Watching => (WatchState::Watching, Some(WatchError::AlreadyWatching)),
        _ => if monitor_ok {
            (WatchState::Watching, None)
        } else {
            (WatchState::Failed, Some(WatchError::MonitorInit))
        },
    }
}

/// One `stop` call as a step of the lifecycle state machine.
pub open spec fn spec_stop_step(s: WatchState) -> (WatchState, Option<WatchError>) {
    match s {
        WatchState::Watching => (WatchState::Idle, None),
        _ => (s, Some(WatchError::NotWatching)),
    }
}

/// A second `start` without an intervening `stop` reports
/// `AlreadyWatching` and leaves the single existing monitor watching;
/// a `stop` before any `start` reports `NotWatching` and changes nothing.
pub proof fn lemma_lifecycle_guards(ok: bool)
    ensures
        spec_start_step(spec_start_step(WatchState::Idle, true).0, ok) == (
            WatchState::Watching,
            Some(WatchError::AlreadyWatching),
        ),
        spec_stop_step(WatchState::Idle) == (WatchState::Idle, Some(WatchError::NotWatching)),
{
}

/// After a `stop` from watching, a `start` may succeed again: the
/// lifecycle is restartable.
pub proof fn lemma_lifecycle_restartable()
    ensures
        spec_stop_step(WatchState::Watching).0 is Idle,
        spec_start_step(spec_stop_step(WatchState::Watching).0, true) == (
            WatchState::Watching,
            None::<WatchError>,
        ),
{
}

#[verifier::external_type_specification]
#[verifier::external_body]
pub struct ExRecommendedWatcher(notify::RecommendedWatcher);

#[verifier::external_type_specification]
#[verifier::external_body]
pub struct ExNotifyError(notify::Error);

#[verifier::external_type_specification]
#[verifier::external_body]
pub struct ExNotifyEvent(notify::Event);

#[verifier::external_type_specification]
#[verifier::external_body]
#[verifier::reject_recursive_types(T)]
pub struct ExSender<T>(Sender<T>);

#[verifier::external_type_specification]
#[verifier::external_body]
#[verifier::reject_recursive_types(T)]
pub struct ExReceiver<T>(Receiver<T>);

/// Relies on std::sync::mpsc::channel: the channel that carries decided
/// copies from the monitor's handler to whoever drains the receiver.
#[verifier::external_body]
fn action_channel() -> (r: (Sender<CopyAction>, Receiver<CopyAction>)) {
    std::sync::mpsc::channel()
}

/// Relies on std::sync::mpsc::Sender::send: hands one copy action to the
/// receiving end; a send after the receiver is gone is discarded.
#[verifier::external_body]
fn send_action(tx: &Sender<CopyAction>, a: CopyAction) {
    let _ = tx.send(a);
}

/// Relies on notify::Event: the kind of the notification, reduced to the
/// three kinds the router distinguishes, one arm per kind.
#[verifier::external_body]
fn event_kind(ev: &notify::Event) -> (r: EventKind) {
    match ev.kind {
        notify::EventKind::Create(_) => EventKind::Create,
        notify::EventKind::Modify(_) => EventKind::Modify,
        _ => EventKind::Other,
    }
}

/// Relies on notify::Event: the paths of the notification, each `None`
/// where it is not valid UTF-8.
#[verifier::external_body]
fn event_paths(ev: &notify::Event) -> (r: Vec<Option<String>>) {
    ev.paths.iter().map(|p| p.to_str().map(|s| s.to_string())).collect()
}

/// Route one notification and deliver the copy it decides, if any.
/// The monitor's handler calls this for every notification it reports;
/// an event that decides nothing sends nothing.
pub fn on_event(ev: &notify::Event, config: &Config, tx: &Sender<CopyAction>) {
    let pe = PlainEvent { kind: event_kind(ev), paths: event_paths(ev) };
    if let Some(act) = route(&pe, config) {
        send_action(tx, act);
    }
}

/// Relies on notify::recommended_watcher: a monitor whose handler hands
/// every notification to [`on_event`] with this configuration and sender.
#[verifier::external_body]
fn monitor_create(config: &Config, tx: Sender<CopyAction>) -> (r: Result<
    notify::RecommendedWatcher,
    notify::Error,
>) {
    let config = config.clone();
    notify::recommended_watcher(
        move |res: Result<notify::Event, notify::Error>|
            {
                if let Ok(ev) = res {
                    on_event(&ev, &config, &tx);
                }
            },
    )
}

/// Relies on notify::Watcher::watch: installs the monitor recursively on
/// the directory.
#[verifier::external_body]
fn monitor_watch(m: &mut notify::RecommendedWatcher, dir: &str) -> (r: Result<
    (),
    notify::Error,
>) {
    notify::Watcher::watch(m, std::path::Path::new(dir), notify::RecursiveMode::Recursive)
}

/// Relies on notify::Watcher::unwatch: uninstalls the monitor from the
/// directory.
#[verifier::external_body]
fn monitor_unwatch(m: &mut notify::RecommendedWatcher, dir: &str) -> (r: Result<
    (),
    notify::Error,
>) {
    notify::Watcher::unwatch(m, std::path::Path::new(dir))
}

/// Watches the configured source directory and delivers the copies its
/// events call for. Owns at most one monitor at a time.
pub struct Watcher {
    monitor: Option<notify::RecommendedWatcher>,
    config: Config,
    state: WatchState,
}

impl Watcher {
    /// The lifecycle state the watcher is in.
    pub closed spec fn spec_state(&self) -> WatchState {
        self.state
    }

    /// The configuration the watcher routes against.
    pub closed spec fn spec_config(&self) -> Config {
        self.config
    }

    /// A watcher for this configuration, idle until started.
    pub fn new(config: Config) -> (r: Watcher)
        ensures
            r.spec_state() is Idle,
            r.spec_config() == config,
    {
        Watcher { monitor: None, config, state: WatchState::Idle }
    }

    /// The current lifecycle state.
    pub fn state(&self) -> (s: WatchState)
        ensures
            s == self.spec_state(),
    {
        self.state
    }

    /// Start watching the source folder.
    ///
    /// From idle or failed, installs a recursive monitor on the
    /// configured source; on success the watcher is watching and the
    /// returned receiver delivers one [`CopyAction`] per routed event,
    /// until `stop` drops the monitor and thereby closes the channel.
    /// A failure to install the monitor leaves the watcher failed and is
    /// reported as `MonitorInit`. Starting an already-watching watcher
    /// changes nothing and reports `AlreadyWatching`.
    pub fn start(&mut self) -> (r: Result<Receiver<CopyAction>, WatchError>)
        ensures
            final(self).spec_config() == old(self).spec_config(),
            final(self).spec_state() == spec_start_step(old(self).spec_state(), r is Ok).0,
            match spec_start_step(old(self).spec_state(), r is Ok).1 {
                None => r is Ok,
                Some(e) => r matches Err(e2) && e2 == e,
            },
            old(self).spec_state() is Watching ==> *final(self) == *old(self),
    {
        match self.state {
            WatchState::Watching => Err(WatchError::AlreadyWatching),
            _ => {
                let (tx, rx) = action_channel();
                match monitor_create(&self.config, tx) {
                    Err(_) => {
                        self.monitor = None;
                        self.state = WatchState::Failed;
                        Err(WatchError::MonitorInit)
                    },
                    Ok(m) => {
                        let mut m = m;
                        match monitor_watch(&mut m, self.config.source.as_str()) {
                            Err(_) => {
                                self.monitor = None;
                                self.state = WatchState::Failed;
                                Err(WatchError::MonitorInit)
                            },
                            Ok(_) => {
                                self.monitor = Some(m);
                                self.state = WatchState::Watching;
                                Ok(rx)
                            },
                        }
                    },
                }
            },
        }
    }

    /// Stop watching the source folder.
    ///
    /// From watching, uninstalls and drops the monitor — closing the
    /// action channel, whose receiver then reports disconnection — and
    /// returns the watcher to idle. Stopping a watcher that is not
    /// watching changes nothing and reports `NotWatching`.
    pub fn stop(&mut self) -> (r: Result<(), WatchError>)
        ensures
            final(self).spec_config() == old(self).spec_config(),
            final(self).spec_state() == spec_stop_step(old(self).spec_state()).0,
            match spec_stop_step(old(self).spec_state()).1 {
                None => r is Ok,
                Some(e) => r matches Err(e2) && e2 == e,
            },
            !(old(self).spec_state() is Watching) ==> *final(self) == *old(self),
    {
        match self.state {
            WatchState::Watching => {
                let taken = self.monitor.take();
                match taken {
                    Some(m) => {
                        let mut m = m;
                        let _ = monitor_unwatch(&mut m, self.config.source.as_str());
                    },
                    None => {},
                }
                self.state = WatchState::Idle;
                Ok(())
            },
            _ => Err(WatchError::NotWatching),
        }
    }
}

} // verus!
