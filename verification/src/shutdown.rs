use vstd::prelude::*;

use crate::errors::Failure;
use crate::managed_server::{
    is_target, record_matches_target, recorded_report, report_of_record, Home, ManagedServerReport,
    ProcessRecord, RecordView, ReportView,
};
use crate::paths::is_same_path;
use crate::text::{concat3, concat5, decimal, decimal_text};

verus! {

/// Where a stop of the managed app-server is.
#[derive(Debug, Clone, Copy, PartialEq, Eq, Structural)]
pub enum StopPhase {
    /// Waiting for the lock.
    Locking,
    /// Looking for the recorded process.
    ReadingRecord,
    /// Looking for a listener that nobody recorded.
    SeekingUnowned,
    /// Asking whether anything listens, with no record.
    ProbingUnowned,
    /// Asking the listener who it is.
    Verifying,
    /// Asking whether anything listens.
    Probing,
    /// Asking whether the recorded leader still runs.
    CheckingLeader,
    /// Asking the process to end.
    Signalling,
    /// Waiting for the process to end.
    Draining,
    Ended,
}

/// A stop of the managed app-server.
#[derive(Debug)]
pub struct StopMachine {
    pub endpoint: String,
    pub home: Home,
    pub phase: StopPhase,
    pub lock_held: bool,
    /// The recorded process that runs, which is of this target.
    pub record: Option<ProcessRecord>,
    /// Why the listener could not be verified.
    pub cause: Option<Failure>,
    /// Whether the process was shown to be the recorded one.
    pub owned: bool,
    /// Whether the process was asked to end.
    pub signalled: bool,
}

/// What a stop is told. Times are in nanoseconds of a monotonic clock.
#[derive(Debug)]
pub enum StopEvent {
    Locked(Result<(), Failure>),
    /// The recorded process that runs, if any, with its home as the file system knows it.
    Record { record: Result<Option<ProcessRecord>, Failure>, home: String },
    /// How a connection went, and whether its peer is the recorded process.
    Connected { connection: Result<(), Failure>, ownership: Result<(), Failure> },
    Reachable(bool),
    Leader(Result<bool, Failure>),
    Signalled(Result<(), Failure>),
    Group { exists: Result<bool, Failure>, now: u64, deadline: u64 },
}

/// What a stop asks for.
#[derive(Debug)]
pub enum StopAction {
    AcquireLock,
    ReadRecord,
    /// Connect, and give up at the deadline of a start.
    ConnectBounded,
    Connect,
    ProbeReachable,
    CheckLeader,
    Signal,
    CheckGroup,
    SleepAndCheckGroup,
    RemoveRecordAndFinish(ManagedServerReport),
    Finish(ManagedServerReport),
    Fail(Failure),
}

/// The mathematical value of a [`StopMachine`].
#[verifier::ext_equal]
pub struct StopView {
    pub endpoint: Seq<char>,
    pub home: Home,
    pub phase: StopPhase,
    pub lock_held: bool,
    pub record: Option<RecordView>,
    pub cause: Option<Seq<Seq<char>>>,
    pub owned: bool,
    pub signalled: bool,
}

/// The mathematical value of a [`StopAction`].
pub enum StopActionView {
    AcquireLock,
    ReadRecord,
    ConnectBounded,
    Connect,
    ProbeReachable,
    CheckLeader,
    Signal,
    CheckGroup,
    SleepAndCheckGroup,
    RemoveRecordAndFinish(ReportView),
    Finish(ReportView),
    Fail(Seq<Seq<char>>),
}

impl View for StopAction {
    type V = StopActionView;

    open spec fn view(&self) -> StopActionView {
        match *self {
            StopAction::AcquireLock => StopActionView::AcquireLock,
            StopAction::ReadRecord => StopActionView::ReadRecord,
            StopAction::ConnectBounded => StopActionView::ConnectBounded,
            StopAction::Connect => StopActionView::Connect,
            StopAction::ProbeReachable => StopActionView::ProbeReachable,
            StopAction::CheckLeader => StopActionView::CheckLeader,
            StopAction::Signal => StopActionView::Signal,
            StopAction::CheckGroup => StopActionView::CheckGroup,
            StopAction::SleepAndCheckGroup => StopActionView::SleepAndCheckGroup,
            StopAction::RemoveRecordAndFinish(report) => StopActionView::RemoveRecordAndFinish(
                report@,
            ),
            StopAction::Finish(report) => StopActionView::Finish(report@),
            StopAction::Fail(failure) => StopActionView::Fail(failure@),
        }
    }
}

impl View for StopMachine {
    type V = StopView;

    open spec fn view(&self) -> StopView {
        StopView {
            endpoint: self.endpoint@,
            home: self.home,
            phase: self.phase,
            lock_held: self.lock_held,
            record: match self.record {
                Some(record) => Some(record@),
                None => None,
            },
            cause: match self.cause {
                Some(cause) => Some(cause@),
                None => None,
            },
            owned: self.owned,
            signalled: self.signalled,
        }
    }
}

/// Whether a stop in this phase can be told this.
pub open spec fn expects_stop(phase: StopPhase, event: StopEvent) -> bool {
    match (phase, event) {
        (StopPhase::Locking, StopEvent::Locked(_)) => true,
        (StopPhase::ReadingRecord, StopEvent::Record { .. }) => true,
        (StopPhase::SeekingUnowned, StopEvent::Connected { .. }) => true,
        (StopPhase::ProbingUnowned, StopEvent::Reachable(_)) => true,
        (StopPhase::Verifying, StopEvent::Connected { .. }) => true,
        (StopPhase::Probing, StopEvent::Reachable(_)) => true,
        (StopPhase::CheckingLeader, StopEvent::Leader(_)) => true,
        (StopPhase::Signalling, StopEvent::Signalled(_)) => true,
        (StopPhase::Draining, StopEvent::Group { .. }) => true,
        _ => false,
    }
}

impl StopView {
    /// A stop that has come this far did so in order: with the lock, with a record of a
    /// process that runs, and with that process shown to be the recorded one.
    pub open spec fn wf(self) -> bool {
        &&& self.phase != StopPhase::Locking && self.phase != StopPhase::Ended ==> self.lock_held
        &&& self.phase == StopPhase::Verifying || self.phase == StopPhase::Probing || self.phase
            == StopPhase::CheckingLeader || self.phase == StopPhase::Signalling || self.phase
            == StopPhase::Draining ==> self.record is Some
        &&& self.record matches Some(record) ==> record.endpoint == self.endpoint
        &&& self.phase == StopPhase::Probing || self.phase == StopPhase::ProbingUnowned
            ==> self.cause is Some
        &&& self.phase == StopPhase::Signalling || self.phase == StopPhase::Draining ==> self.owned
        &&& self.signalled ==> self.owned && self.record is Some && self.lock_held
        &&& self.phase == StopPhase::Draining ==> self.signalled
    }

    pub open spec fn failed(self, failure: Seq<Seq<char>>) -> (StopView, StopActionView) {
        (StopView { phase: StopPhase::Ended, ..self }, StopActionView::Fail(failure))
    }

    pub open spec fn moved(self, phase: StopPhase, action: StopActionView) -> (
        StopView,
        StopActionView,
    ) {
        (StopView { phase, ..self }, action)
    }
}

/// The report that nothing runs.
pub open spec fn not_running_report(endpoint: Seq<char>, codex_home: Seq<char>) -> ReportView {
    ReportView {
        status: "notRunning"@,
        backend: "codex-tamer"@,
        endpoint,
        codex_home,
        codex_bin: None,
        codex_version: None,
        pid: None,
    }
}

/// What a stop fails with where something listens that cannot be verified.
pub open spec fn unverified(cause: Seq<Seq<char>>) -> Seq<Seq<char>> {
    seq!["managed app-server endpoint is reachable but cannot be verified for shutdown"@] + cause
}

/// A stop after what it was told, and what it asks for next.
pub open spec fn stopped_step(stop: StopView, event: StopEvent) -> (StopView, StopActionView) {
    match (stop.phase, event) {
        (StopPhase::Locking, StopEvent::Locked(locked)) => match locked {
            Err(failure) => stop.failed(failure@),
            Ok(()) => (
                StopView { phase: StopPhase::ReadingRecord, lock_held: true, ..stop },
                StopActionView::ReadRecord,
            ),
        },
        (StopPhase::ReadingRecord, StopEvent::Record { record, home }) => match record {
            Err(failure) => stop.failed(failure@),
            Ok(None) => stop.moved(StopPhase::SeekingUnowned, StopActionView::ConnectBounded),
            Ok(Some(record)) => if is_target(
                record@,
                home@,
                stop.home.normalized@,
                stop.endpoint,
            ) {
                (
                    StopView { phase: StopPhase::Verifying, record: Some(record@), ..stop },
                    StopActionView::Connect,
                )
            } else {
                stop.failed(
                    seq!["managed app-server process record does not match the selected target"@],
                )
            },
        },
        (StopPhase::SeekingUnowned, StopEvent::Connected { connection, .. }) => match connection {
            Ok(()) => stop.failed(
                seq![
                    "app-server at `"@ + stop.endpoint
                        + "` is reachable but is not owned by codex-tamer; refusing to stop it"@,
                ],
            ),
            Err(cause) => (
                StopView { phase: StopPhase::ProbingUnowned, cause: Some(cause@), ..stop },
                StopActionView::ProbeReachable,
            ),
        },
        (StopPhase::ProbingUnowned, StopEvent::Reachable(reachable)) => if reachable {
            stop.failed(unverified(stop.cause->0))
        } else {
            stop.moved(
                StopPhase::Ended,
                StopActionView::Finish(not_running_report(stop.endpoint, stop.home.path@)),
            )
        },
        (StopPhase::Verifying, StopEvent::Connected { connection, ownership }) => match (
            connection,
            ownership,
        ) {
            (Ok(()), Ok(())) => (
                StopView { phase: StopPhase::Signalling, owned: true, ..stop },
                StopActionView::Signal,
            ),
            (Ok(()), Err(failure)) => stop.failed(failure@),
            (Err(cause), _) => (
                StopView { phase: StopPhase::Probing, cause: Some(cause@), ..stop },
                StopActionView::ProbeReachable,
            ),
        },
        (StopPhase::Probing, StopEvent::Reachable(reachable)) => if reachable {
            stop.failed(unverified(stop.cause->0))
        } else {
            stop.moved(StopPhase::CheckingLeader, StopActionView::CheckLeader)
        },
        (StopPhase::CheckingLeader, StopEvent::Leader(leader)) => match leader {
            Err(failure) => stop.failed(failure@),
            Ok(true) => (
                StopView { phase: StopPhase::Signalling, owned: true, ..stop },
                StopActionView::Signal,
            ),
            Ok(false) => stop.failed(
                seq![
                    "managed app-server endpoint is unavailable and pid "@ + decimal(
                        stop.record->0.pid as int,
                    ) + " cannot prove ownership of process group "@ + decimal(
                        stop.record->0.process_group_id as int,
                    ) + "; refusing to stop it"@,
                ],
            ),
        },
        (StopPhase::Signalling, StopEvent::Signalled(signalled)) => match signalled {
            Err(cause) => stop.failed(
                seq![
                    "failed to stop managed app-server pid "@ + decimal(
                        stop.record->0.pid as int,
                    ),
                ] + cause@,
            ),
            Ok(()) => (
                StopView { phase: StopPhase::Draining, signalled: true, ..stop },
                StopActionView::CheckGroup,
            ),
        },
        (StopPhase::Draining, StopEvent::Group { exists, now, deadline }) => match exists {
            Err(failure) => stop.failed(failure@),
            Ok(false) => stop.moved(
                StopPhase::Ended,
                StopActionView::RemoveRecordAndFinish(
                    recorded_report(
                        "stopped"@,
                        stop.endpoint,
                        stop.home.path@,
                        stop.record->0,
                    ),
                ),
            ),
            Ok(true) => if now >= deadline {
                stop.failed(
                    seq![
                        "timed out waiting for managed app-server process group "@ + decimal(
                            stop.record->0.process_group_id as int,
                        ) + " to stop"@,
                    ],
                )
            } else {
                (stop, StopActionView::SleepAndCheckGroup)
            },
        },
        _ => (stop, StopActionView::CheckGroup),
    }
}

/// A process is signalled only with the lock held, and only where it is recorded for this
/// target and was shown to be the recorded one; its record is removed only once its group is
/// gone; and a listener that nobody recorded is left alone.
pub proof fn law_stop_is_safe(stop: StopView, event: StopEvent)
    requires
        stop.wf(),
        expects_stop(stop.phase, event),
    ensures
        ({
            let (after, action) = stopped_step(stop, event);
            &&& after.wf()
            &&& action is Signal ==> {
                &&& after.lock_held
                &&& after.owned
                &&& after.record matches Some(record) && record.endpoint == after.endpoint
                &&& event matches StopEvent::Connected { connection, ownership } ==> connection is Ok
                    && ownership is Ok
                &&& event matches StopEvent::Leader(leader) ==> leader == Ok::<bool, Failure>(true)
            }
            &&& action is RemoveRecordAndFinish ==> {
                &&& after.signalled
                &&& event is Group
                &&& event->exists == Ok::<bool, Failure>(false)
            }
            &&& stop.record is None ==> !(action is Signal)
        }),
{
}

/// A process is signalled where its listener answered as the recorded process, or where nothing
/// listens and its leader was shown to be the recorded one; a listener that answers as another,
/// or that cannot be verified, is left alone, and so is a group whose leader cannot prove it.
pub proof fn law_stop_signals_only_what_is_its_own(stop: StopView, event: StopEvent)
    requires
        stop.wf(),
        expects_stop(stop.phase, event),
    ensures
        ({
            let (after, action) = stopped_step(stop, event);
            &&& action is Signal <==> {
                ||| stop.phase == StopPhase::Verifying && (event matches StopEvent::Connected {
                    connection: Ok(_),
                    ownership: Ok(_),
                })
                ||| stop.phase == StopPhase::CheckingLeader && (event matches StopEvent::Leader(
                    Ok(true),
                ))
            }
            &&& action is CheckLeader <==> stop.phase == StopPhase::Probing && event
                == StopEvent::Reachable(false)
            &&& stop.phase == StopPhase::Verifying && (event matches StopEvent::Connected {
                connection: Ok(_),
                ownership: Err(_),
            }) ==> action is Fail
            &&& event == StopEvent::Reachable(true) ==> (action matches StopActionView::Fail(chain)
                && chain.len() == stop.cause->0.len() + 1 && chain.drop_first() == stop.cause->0)
            &&& event == StopEvent::Leader(Ok(false)) ==> action is Fail
            &&& event matches StopEvent::Connected { connection: Err(cause), .. } ==> action is
                ProbeReachable && after.cause == Some(cause@)
            &&& stop.phase == StopPhase::SeekingUnowned && (event matches StopEvent::Connected {
                connection: Ok(_),
                ..
            }) ==> action is Fail
        }),
{
    if stop.cause is Some {
        let cause = stop.cause->0;
        assert(unverified(cause).drop_first() =~= cause);
    }
}

/// A stop reports that nothing runs only where no process is recorded and nothing listens. It
/// reports the recorded process stopped only once it was signalled and its group is gone. While
/// the group is there it waits, and fails at the deadline.
pub proof fn law_stop_reports_what_came_of_it(stop: StopView, event: StopEvent)
    requires
        stop.wf(),
        expects_stop(stop.phase, event),
    ensures
        ({
            let (after, action) = stopped_step(stop, event);
            &&& action matches StopActionView::Finish(report) ==> {
                &&& stop.phase == StopPhase::ProbingUnowned
                &&& event == StopEvent::Reachable(false)
                &&& report.status == "notRunning"@
                &&& report.backend == "codex-tamer"@
                &&& report.endpoint == stop.endpoint
                &&& report.codex_home == stop.home.path@
                &&& report.codex_bin is None
                &&& report.codex_version is None
                &&& report.pid is None
            }
            &&& stop.phase == StopPhase::ProbingUnowned && event == StopEvent::Reachable(false)
                ==> action is Finish
            &&& action matches StopActionView::RemoveRecordAndFinish(report) ==> {
                &&& event matches StopEvent::Group { exists: Ok(false), .. }
                &&& stop.signalled
                &&& report.status == "stopped"@
                &&& report.backend == "codex-tamer"@
                &&& report.endpoint == stop.endpoint
                &&& report.codex_home == stop.home.path@
                &&& report.codex_bin == Some(stop.record->0.codex_bin)
                &&& report.codex_version == Some(stop.record->0.codex_version)
                &&& report.pid == Some(stop.record->0.pid)
            }
            &&& event matches StopEvent::Group { exists: Ok(false), .. } ==> action is
                RemoveRecordAndFinish
            &&& event matches StopEvent::Group { exists: Ok(true), now, deadline } ==> {
                &&& now < deadline ==> action is SleepAndCheckGroup && after == stop
                &&& now >= deadline ==> action is Fail
            }
            &&& event matches StopEvent::Group { exists: Err(failure), .. } ==> action
                == StopActionView::Fail(failure@)
            &&& event matches StopEvent::Signalled(Ok(_)) ==> action is CheckGroup
                && after.signalled && after.record == stop.record
            &&& event matches StopEvent::Signalled(Err(_)) ==> action is Fail
        }),
{
}

/// A stop goes by the record that was read: with none it looks for a listener that it does not
/// own, and one of this target it keeps, and verifies.
pub proof fn law_stop_goes_by_the_record(stop: StopView, record: ProcessRecord, home: String)
    requires
        stop.wf(),
    ensures
        stop.phase == StopPhase::Locking ==> {
            let (after, action) = stopped_step(stop, StopEvent::Locked(Ok(())));
            action is ReadRecord && after.lock_held && after.phase == StopPhase::ReadingRecord
        },
        stop.phase == StopPhase::ReadingRecord ==> {
            let (after, action) = stopped_step(stop, StopEvent::Record { record: Ok(None), home });
            action is ConnectBounded && after.phase == StopPhase::SeekingUnowned
        },
        stop.phase == StopPhase::ReadingRecord && is_same_path(home@, stop.home.normalized@)
            && record.endpoint@ == stop.endpoint ==> {
            let (after, action) = stopped_step(
                stop,
                StopEvent::Record { record: Ok(Some(record)), home },
            );
            &&& action is Connect
            &&& after.phase == StopPhase::Verifying
            &&& after.record == Some(record@)
        },
        stop.phase == StopPhase::ReadingRecord && (!is_same_path(home@, stop.home.normalized@)
            || record.endpoint@ != stop.endpoint) ==> stopped_step(
            stop,
            StopEvent::Record { record: Ok(Some(record)), home },
        ).1 is Fail,
{
}

/// A recorded process of another home or endpoint is not touched: the stop ends there.
pub proof fn law_stop_spares_another_target(stop: StopView, record: ProcessRecord, home: String)
    requires
        stop.wf(),
        stop.phase == StopPhase::ReadingRecord,
        !is_target(record@, home@, stop.home.normalized@, stop.endpoint),
    ensures
        ({
            let event = StopEvent::Record { record: Ok(Some(record)), home };
            let (after, action) = stopped_step(stop, event);
            &&& after.phase == StopPhase::Ended
            &&& after.signalled == stop.signalled
            &&& action is Fail
        }),
{
}

impl StopMachine {
    /// Begins a stop, which waits for the lock first.
    pub fn stop(endpoint: &str, home: Home) -> (begun: (StopMachine, StopAction))
        ensures
            begun.0@.wf(),
            begun.0@ == (StopView {
                endpoint: endpoint@,
                home,
                phase: StopPhase::Locking,
                lock_held: false,
                record: None,
                cause: None,
                owned: false,
                signalled: false,
            }),
            begun.1@ is AcquireLock,
    {
        (
            StopMachine {
                endpoint: endpoint.to_owned(),
                home,
                phase: StopPhase::Locking,
                lock_held: false,
                record: None,
                cause: None,
                owned: false,
                signalled: false,
            },
            StopAction::AcquireLock,
        )
    }

    fn fail(&mut self, failure: Failure) -> (action: StopAction)
        ensures
            (final(self)@, action@) == old(self)@.failed(failure@),
    {
        self.phase = StopPhase::Ended;
        StopAction::Fail(failure)
    }

    fn copy_cause(&self) -> (cause: Failure)
        requires
            self.cause is Some,
        ensures
            self.cause matches Some(own) && cause@ == own@,
    {
        match &self.cause {
            Some(cause) => cause.duplicate(),
            None => vstd::pervasive::unreached(),
        }
    }

    fn refuse_unproven(&mut self) -> (action: StopAction)
        requires
            old(self).record is Some,
        ensures
            (final(self)@, action@) == old(self)@.failed(
                seq![
                    "managed app-server endpoint is unavailable and pid "@ + decimal(
                        old(self)@.record->0.pid as int,
                    ) + " cannot prove ownership of process group "@ + decimal(
                        old(self)@.record->0.process_group_id as int,
                    ) + "; refusing to stop it"@,
                ],
            ),
    {
        let message = match &self.record {
            Some(record) => {
                let pid = decimal_text(record.pid as i64);
                let group = decimal_text(record.process_group_id as i64);
                concat5(
                    "managed app-server endpoint is unavailable and pid ",
                    pid.as_str(),
                    " cannot prove ownership of process group ",
                    group.as_str(),
                    "; refusing to stop it",
                )
            },
            None => vstd::pervasive::unreached(),
        };
        self.fail(Failure::of(message))
    }

    fn drain(&mut self, exists: Result<bool, Failure>, now: u64, deadline: u64) -> (action:
        StopAction)
        requires
            old(self).record is Some,
            old(self).phase == StopPhase::Draining,
        ensures
            (final(self)@, action@) == stopped_step(
                old(self)@,
                StopEvent::Group { exists, now, deadline },
            ),
    {
        match exists {
            Err(failure) => self.fail(failure),
            Ok(false) => {
                self.phase = StopPhase::Ended;
                match &self.record {
                    Some(record) => StopAction::RemoveRecordAndFinish(
                        report_of_record(
                            "stopped",
                            self.endpoint.as_str(),
                            self.home.path.as_str(),
                            record,
                        ),
                    ),
                    None => vstd::pervasive::unreached(),
                }
            },
            Ok(true) => if now >= deadline {
                let group = match &self.record {
                    Some(record) => decimal_text(record.process_group_id as i64),
                    None => vstd::pervasive::unreached(),
                };
                let message = concat3(
                    "timed out waiting for managed app-server process group ",
                    group.as_str(),
                    " to stop",
                );
                self.fail(Failure::of(message))
            } else {
                StopAction::SleepAndCheckGroup
            },
        }
    }

    /// Takes in what the stop is told and says what it asks for next.
    pub fn step(&mut self, event: StopEvent) -> (action: StopAction)
        requires
            old(self)@.wf(),
            expects_stop(old(self).phase, event),
        ensures
            final(self)@.wf(),
            (final(self)@, action@) == stopped_step(old(self)@, event),
    {
        proof {
            law_stop_is_safe(self@, event);
        }
        match event {
            StopEvent::Locked(locked) => match locked {
                Err(failure) => self.fail(failure),
                Ok(()) => {
                    self.phase = StopPhase::ReadingRecord;
                    self.lock_held = true;
                    StopAction::ReadRecord
                },
            },
            StopEvent::Record { record, home } => match record {
                Err(failure) => self.fail(failure),
                Ok(None) => {
                    self.phase = StopPhase::SeekingUnowned;
                    StopAction::ConnectBounded
                },
                Ok(Some(record)) => if record_matches_target(
                    &record,
                    home.as_str(),
                    self.home.normalized.as_str(),
                    self.endpoint.as_str(),
                ) {
                    self.phase = StopPhase::Verifying;
                    self.record = Some(record);
                    StopAction::Connect
                } else {
                    self.fail(
                        Failure::new(
                            "managed app-server process record does not match the selected target",
                        ),
                    )
                },
            },
            StopEvent::Connected { connection, ownership } => if self.phase
                == StopPhase::SeekingUnowned {
                match connection {
                    Ok(()) => {
                        let message = concat3(
                            "app-server at `",
                            self.endpoint.as_str(),
                            "` is reachable but is not owned by codex-tamer; refusing to stop it",
                        );
                        self.fail(Failure::of(message))
                    },
                    Err(cause) => {
                        self.phase = StopPhase::ProbingUnowned;
                        self.cause = Some(cause);
                        StopAction::ProbeReachable
                    },
                }
            } else {
                match connection {
                    Ok(()) => match ownership {
                        Ok(()) => {
                            self.phase = StopPhase::Signalling;
                            self.owned = true;
                            StopAction::Signal
                        },
                        Err(failure) => self.fail(failure),
                    },
                    Err(cause) => {
                        self.phase = StopPhase::Probing;
                        self.cause = Some(cause);
                        StopAction::ProbeReachable
                    },
                }
            },
            StopEvent::Reachable(reachable) => if reachable {
                let cause = self.copy_cause();
                self.fail(
                    cause.context(
                        "managed app-server endpoint is reachable but cannot be verified for shutdown",
                    ),
                )
            } else if self.phase == StopPhase::ProbingUnowned {
                self.phase = StopPhase::Ended;
                StopAction::Finish(
                    ManagedServerReport {
                        status: "notRunning".to_owned(),
                        backend: "codex-tamer".to_owned(),
                        endpoint: self.endpoint.clone(),
                        codex_home: self.home.path.clone(),
                        codex_bin: None,
                        codex_version: None,
                        pid: None,
                    },
                )
            } else {
                self.phase = StopPhase::CheckingLeader;
                StopAction::CheckLeader
            },
            StopEvent::Leader(leader) => match leader {
                Err(failure) => self.fail(failure),
                Ok(true) => {
                    self.phase = StopPhase::Signalling;
                    self.owned = true;
                    StopAction::Signal
                },
                Ok(false) => self.refuse_unproven(),
            },
            StopEvent::Signalled(signalled) => match signalled {
                Err(cause) => {
                    let pid = match &self.record {
                        Some(record) => decimal_text(record.pid as i64),
                        None => vstd::pervasive::unreached(),
                    };
                    let mut message = "failed to stop managed app-server pid ".to_owned();
                    message.append(pid.as_str());
                    self.fail(cause.context(message.as_str()))
                },
                Ok(()) => {
                    self.phase = StopPhase::Draining;
                    self.signalled = true;
                    StopAction::CheckGroup
                },
            },
            StopEvent::Group { exists, now, deadline } => self.drain(exists, now, deadline),
        }
    }
}

} // verus!
