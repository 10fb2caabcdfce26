use vstd::prelude::*;

use crate::codex_runtime::CodexRuntime;
use crate::errors::Failure;
use crate::managed_server::{
    boot_result, is_target, leader_is_active, plain_result, record_is_active,
    record_matches_target, recorded_report, report_of_record, text_result, FactsView, Home,
    ManagedServerReport, ProcessRecord, RecordView, ReportView, PROCESS_RECORD_SCHEMA_VERSION,
};
use crate::paths::is_same_path;
use crate::text::{clone_text, concat3, concat5, decimal, decimal_text, joined, text_view};
use crate::words::text_views;

verus! {

/// Where a start of the managed app-server is.
#[derive(Debug, Clone, Copy, PartialEq, Eq, Structural)]
pub enum StartPhase {
    /// Looking for a listener, without the lock.
    Probing,
    /// Reporting on a listener that was found.
    Reporting,
    /// Waiting for the lock.
    Locking,
    /// Looking for a listener once more, with the lock.
    ProbingLocked,
    /// Looking for a recorded process.
    ReadingRecord,
    /// Looking for a Codex binary.
    Resolving,
    /// Starting the process.
    Spawning,
    /// Looking at the process that was started.
    Inspecting,
    /// Writing the process down.
    Recording,
    /// Waiting until the process listens.
    Waiting,
    /// Ending a process that was not written down.
    Reaping,
    /// Ending a process that was written down.
    ReapingRecorded,
    /// Reading what the process complained of.
    Tailing,
    Ended,
}

/// A start of the managed app-server.
#[derive(Debug)]
pub struct StartMachine {
    pub endpoint: String,
    pub home: Home,
    pub phase: StartPhase,
    pub lock_held: bool,
    /// Whether no recorded process was found to run.
    pub record_free: bool,
    pub runtime: Option<CodexRuntime>,
    /// The process that was started and not ended again.
    pub child: Option<u32>,
    pub record: Option<ProcessRecord>,
    /// Whether the record was written.
    pub recorded: bool,
    /// Why the start fails.
    pub failure: Option<Failure>,
    /// Whether the process could not be ended.
    pub reap_failed: bool,
}

/// What a start is told.
#[derive(Debug)]
pub enum StartEvent {
    /// Whether there is a listener to use.
    Existing(Result<bool, Failure>),
    /// The report on a listener that was found.
    Reported(Result<ManagedServerReport, Failure>),
    Locked(Result<(), Failure>),
    /// The recorded process that runs, if any, with its home as the file system knows it.
    Record { record: Result<Option<ProcessRecord>, Failure>, home: String },
    Runtime(Result<CodexRuntime, Failure>),
    Spawned(Result<u32, Failure>),
    Inspected {
        start_time: Result<String, Failure>,
        process_group: Result<u32, Failure>,
        boot_id: Result<Option<String>, Failure>,
    },
    Recorded(Result<(), Failure>),
    Ready(Result<(), Failure>),
    Reaped(Result<(), Failure>),
    Tail(String),
}

/// What a start asks for.
#[derive(Debug)]
pub enum StartAction {
    ConnectExisting { reject: bool },
    ReportReuse,
    AcquireLock,
    ReadRecord,
    ResolveRuntime,
    Spawn { codex_bin: String, arguments: Vec<String>, codex_home: String },
    Inspect { pid: u32 },
    WriteRecord { record: ProcessRecord },
    WaitReady,
    Reap,
    RemoveRecordAndReadTail,
    ReadTail,
    Finish(ManagedServerReport),
    Fail(Failure),
}

/// The mathematical value of a [`CodexRuntime`].
#[verifier::ext_equal]
pub struct RuntimeView {
    pub codex_bin: Seq<char>,
    pub codex_home: Seq<char>,
    pub version: Seq<char>,
}

pub open spec fn runtime_view(runtime: CodexRuntime) -> RuntimeView {
    RuntimeView {
        codex_bin: runtime.codex_bin@,
        codex_home: runtime.codex_home@,
        version: runtime.version@,
    }
}

/// The mathematical value of a [`StartMachine`].
#[verifier::ext_equal]
pub struct StartView {
    pub endpoint: Seq<char>,
    pub home: Home,
    pub phase: StartPhase,
    pub lock_held: bool,
    pub record_free: bool,
    pub runtime: Option<RuntimeView>,
    pub child: Option<u32>,
    pub record: Option<RecordView>,
    pub recorded: bool,
    pub failure: Option<Seq<Seq<char>>>,
    pub reap_failed: bool,
}

/// The mathematical value of a [`StartAction`].
pub enum StartActionView {
    ConnectExisting { reject: bool },
    ReportReuse,
    AcquireLock,
    ReadRecord,
    ResolveRuntime,
    Spawn { codex_bin: Seq<char>, arguments: Seq<Seq<char>>, codex_home: Seq<char> },
    Inspect { pid: u32 },
    WriteRecord { record: RecordView },
    WaitReady,
    Reap,
    RemoveRecordAndReadTail,
    ReadTail,
    Finish(ReportView),
    Fail(Seq<Seq<char>>),
}

impl View for StartAction {
    type V = StartActionView;

    open spec fn view(&self) -> StartActionView {
        match *self {
            StartAction::ConnectExisting { reject } => StartActionView::ConnectExisting { reject },
            StartAction::ReportReuse => StartActionView::ReportReuse,
            StartAction::AcquireLock => StartActionView::AcquireLock,
            StartAction::ReadRecord => StartActionView::ReadRecord,
            StartAction::ResolveRuntime => StartActionView::ResolveRuntime,
            StartAction::Spawn { codex_bin, arguments, codex_home } => StartActionView::Spawn {
                codex_bin: codex_bin@,
                arguments: text_views(arguments@),
                codex_home: codex_home@,
            },
            StartAction::Inspect { pid } => StartActionView::Inspect { pid },
            StartAction::WriteRecord { record } => StartActionView::WriteRecord { record: record@ },
            StartAction::WaitReady => StartActionView::WaitReady,
            StartAction::Reap => StartActionView::Reap,
            StartAction::RemoveRecordAndReadTail => StartActionView::RemoveRecordAndReadTail,
            StartAction::ReadTail => StartActionView::ReadTail,
            StartAction::Finish(report) => StartActionView::Finish(report@),
            StartAction::Fail(failure) => StartActionView::Fail(failure@),
        }
    }
}

impl View for StartMachine {
    type V = StartView;

    open spec fn view(&self) -> StartView {
        StartView {
            endpoint: self.endpoint@,
            home: self.home,
            phase: self.phase,
            lock_held: self.lock_held,
            record_free: self.record_free,
            runtime: match self.runtime {
                Some(runtime) => Some(runtime_view(runtime)),
                None => None,
            },
            child: self.child,
            record: match self.record {
                Some(record) => Some(record@),
                None => None,
            },
            recorded: self.recorded,
            failure: match self.failure {
                Some(failure) => Some(failure@),
                None => None,
            },
            reap_failed: self.reap_failed,
        }
    }
}

/// Whether a start in this phase can be told this.
pub open spec fn expects_start(phase: StartPhase, event: StartEvent) -> bool {
    match (phase, event) {
        (StartPhase::Probing, StartEvent::Existing(_)) => true,
        (StartPhase::ProbingLocked, StartEvent::Existing(_)) => true,
        (StartPhase::Reporting, StartEvent::Reported(_)) => true,
        (StartPhase::Locking, StartEvent::Locked(_)) => true,
        (StartPhase::ReadingRecord, StartEvent::Record { .. }) => true,
        (StartPhase::Resolving, StartEvent::Runtime(_)) => true,
        (StartPhase::Spawning, StartEvent::Spawned(_)) => true,
        (StartPhase::Inspecting, StartEvent::Inspected { .. }) => true,
        (StartPhase::Recording, StartEvent::Recorded(_)) => true,
        (StartPhase::Waiting, StartEvent::Ready(_)) => true,
        (StartPhase::Reaping, StartEvent::Reaped(_)) => true,
        (StartPhase::ReapingRecorded, StartEvent::Reaped(_)) => true,
        (StartPhase::Tailing, StartEvent::Tail(_)) => true,
        _ => false,
    }
}

/// How far a start has come.
pub open spec fn progress_of(phase: StartPhase) -> int {
    match phase {
        StartPhase::Probing => 0,
        StartPhase::Reporting => 0,
        StartPhase::Locking => 0,
        StartPhase::ProbingLocked => 1,
        StartPhase::ReadingRecord => 1,
        StartPhase::Resolving => 2,
        StartPhase::Spawning => 3,
        StartPhase::Inspecting => 4,
        StartPhase::Reaping => 4,
        StartPhase::Recording => 5,
        StartPhase::Waiting => 6,
        StartPhase::ReapingRecorded => 6,
        StartPhase::Tailing => 6,
        StartPhase::Ended => 7,
    }
}

impl StartView {
    /// A start that has come this far did so in order: with the lock, with no recorded
    /// process running, with a binary, with a process, and with that process written down
    /// as the leader of its own group.
    pub open spec fn wf(self) -> bool {
        let n = progress_of(self.phase);
        &&& 1 <= n <= 6 ==> self.lock_held
        &&& 2 <= n <= 6 ==> self.record_free
        &&& 3 <= n <= 6 ==> self.runtime is Some
        &&& n < 4 ==> self.child is None
        &&& 4 <= n <= 6 && self.phase != StartPhase::Tailing ==> self.child is Some
        &&& 5 <= n <= 6 ==> self.record is Some && self.describes_child()
        &&& self.recorded <==> self.record_written()
        &&& self.phase == StartPhase::Reaping || self.phase == StartPhase::ReapingRecorded
            || self.phase == StartPhase::Tailing ==> self.failure is Some
        &&& self.phase == StartPhase::Tailing ==> self.child is None || self.reap_failed
        &&& self.phase == StartPhase::Ended && self.child is Some ==> self.reap_failed
            || self.recorded
    }

    pub open spec fn record_written(self) -> bool {
        ||| progress_of(self.phase) == 6
        ||| self.phase == StartPhase::Ended && self.recorded
    }

    /// The record, where there is one, is of the process that was started.
    pub open spec fn describes_child(self) -> bool {
        self.record matches Some(record) ==> {
            &&& self.child matches Some(pid) ==> record.pid == pid
            &&& record.process_group_id == record.pid
            &&& record.endpoint == self.endpoint
        }
    }

    pub open spec fn ended(self, action: StartActionView) -> (StartView, StartActionView) {
        (StartView { phase: StartPhase::Ended, ..self }, action)
    }

    pub open spec fn failed(self, failure: Seq<Seq<char>>) -> (StartView, StartActionView) {
        self.ended(StartActionView::Fail(failure))
    }

    pub open spec fn moved(self, phase: StartPhase, action: StartActionView) -> (
        StartView,
        StartActionView,
    ) {
        (StartView { phase, ..self }, action)
    }

    pub open spec fn reaping(self, failure: Seq<Seq<char>>) -> (StartView, StartActionView) {
        (
            StartView { phase: StartPhase::Reaping, failure: Some(failure), ..self },
            StartActionView::Reap,
        )
    }
}

/// What a start that found a recorded process running fails with.
pub open spec fn running_failure(
    start: StartView,
    record: RecordView,
    record_home: Seq<char>,
) -> Seq<char> {
    if !is_target(record, record_home, start.home.normalized@, start.endpoint) {
        "managed app-server process record does not match the selected target"@
    } else {
        "managed app-server pid "@ + decimal(record.pid as int) + " is still running but `"@
            + start.endpoint + "` is not ready; refusing to start a duplicate process"@
    }
}

/// What a start whose process did not get ready fails with.
pub open spec fn not_ready_context(tail: Seq<char>) -> Seq<char> {
    if tail.len() == 0 {
        "managed Codex app-server did not become ready"@
    } else {
        "managed Codex app-server did not become ready; stderr tail:\n"@ + tail
    }
}

/// What a start comes to when its process was looked at.
pub open spec fn inspected(
    start: StartView,
    start_time: Result<Seq<char>, Seq<Seq<char>>>,
    process_group: Result<u32, Seq<Seq<char>>>,
    boot_id: Result<Option<Seq<char>>, Seq<Seq<char>>>,
) -> (StartView, StartActionView) {
    let pid = start.child->0;
    let runtime = start.runtime->0;
    match start_time {
        Err(failure) => start.reaping(failure),
        Ok(time) => match process_group {
            Err(failure) => start.reaping(failure),
            Ok(group) => if group != pid {
                start.reaping(
                    seq![
                        "managed app-server pid "@ + decimal(pid as int)
                            + " started in unexpected process group "@ + decimal(group as int),
                    ],
                )
            } else {
                match boot_id {
                    Err(failure) => start.reaping(failure),
                    Ok(boot) => {
                        let record = RecordView {
                            schema_version: PROCESS_RECORD_SCHEMA_VERSION,
                            pid,
                            process_group_id: group,
                            process_start_time: time,
                            boot_id: boot,
                            codex_bin: runtime.codex_bin,
                            codex_version: runtime.version,
                            codex_home: runtime.codex_home,
                            endpoint: start.endpoint,
                        };
                        (
                            StartView {
                                phase: StartPhase::Recording,
                                record: Some(record),
                                ..start
                            },
                            StartActionView::WriteRecord { record },
                        )
                    },
                }
            },
        },
    }
}

/// A start after what it was told, and what it asks for next.
pub open spec fn started_step(start: StartView, event: StartEvent) -> (
    StartView,
    StartActionView,
) {
    match (start.phase, event) {
        (StartPhase::Probing, StartEvent::Existing(existing)) => match existing {
            Err(failure) => start.failed(failure@),
            Ok(true) => start.moved(StartPhase::Reporting, StartActionView::ReportReuse),
            Ok(false) => start.moved(StartPhase::Locking, StartActionView::AcquireLock),
        },
        (StartPhase::Reporting, StartEvent::Reported(report)) => match report {
            Err(failure) => start.failed(failure@),
            Ok(report) => start.ended(StartActionView::Finish(report@)),
        },
        (StartPhase::Locking, StartEvent::Locked(locked)) => match locked {
            Err(failure) => start.failed(failure@),
            Ok(()) => (
                StartView { phase: StartPhase::ProbingLocked, lock_held: true, ..start },
                StartActionView::ConnectExisting { reject: true },
            ),
        },
        (StartPhase::ProbingLocked, StartEvent::Existing(existing)) => match existing {
            Err(failure) => start.failed(failure@),
            Ok(true) => start.moved(StartPhase::Reporting, StartActionView::ReportReuse),
            Ok(false) => start.moved(StartPhase::ReadingRecord, StartActionView::ReadRecord),
        },
        (StartPhase::ReadingRecord, StartEvent::Record { record, home }) => match record {
            Err(failure) => start.failed(failure@),
            Ok(Some(record)) => start.failed(seq![running_failure(start, record@, home@)]),
            Ok(None) => (
                StartView { phase: StartPhase::Resolving, record_free: true, ..start },
                StartActionView::ResolveRuntime,
            ),
        },
        (StartPhase::Resolving, StartEvent::Runtime(runtime)) => match runtime {
            Err(failure) => start.failed(failure@),
            Ok(runtime) => (
                StartView {
                    phase: StartPhase::Spawning,
                    runtime: Some(runtime_view(runtime)),
                    ..start
                },
                StartActionView::Spawn {
                    codex_bin: runtime.codex_bin@,
                    arguments: seq!["app-server"@, "--listen"@, start.endpoint],
                    codex_home: runtime.codex_home@,
                },
            ),
        },
        (StartPhase::Spawning, StartEvent::Spawned(spawned)) => match spawned {
            Err(failure) => start.failed(failure@),
            Ok(pid) => (
                StartView { phase: StartPhase::Inspecting, child: Some(pid), ..start },
                StartActionView::Inspect { pid },
            ),
        },
        (
            StartPhase::Inspecting,
            StartEvent::Inspected { start_time, process_group, boot_id },
        ) => inspected(
            start,
            text_result(start_time),
            plain_result(process_group),
            boot_result(boot_id),
        ),
        (StartPhase::Recording, StartEvent::Recorded(written)) => match written {
            Err(failure) => start.reaping(failure@),
            Ok(()) => (
                StartView { phase: StartPhase::Waiting, recorded: true, ..start },
                StartActionView::WaitReady,
            ),
        },
        (StartPhase::Waiting, StartEvent::Ready(ready)) => match ready {
            Err(failure) => (
                StartView {
                    phase: StartPhase::ReapingRecorded,
                    failure: Some(failure@),
                    ..start
                },
                StartActionView::Reap,
            ),
            Ok(()) => start.ended(
                StartActionView::Finish(
                    recorded_report(
                        "started"@,
                        start.endpoint,
                        start.runtime->0.codex_home,
                        start.record->0,
                    ),
                ),
            ),
        },
        (StartPhase::Reaping, StartEvent::Reaped(reaped)) => match reaped {
            Ok(()) => StartView { child: None, ..start }.failed(start.failure->0),
            Err(cause) => StartView { reap_failed: true, ..start }.failed(
                seq![
                    "also failed to terminate and reap spawned app-server: "@ + joined(
                        cause@,
                        ": "@,
                    ),
                ] + start.failure->0,
            ),
        },
        (StartPhase::ReapingRecorded, StartEvent::Reaped(reaped)) => match reaped {
            Ok(()) => (
                StartView { phase: StartPhase::Tailing, child: None, ..start },
                StartActionView::RemoveRecordAndReadTail,
            ),
            Err(cause) => (
                StartView {
                    phase: StartPhase::Tailing,
                    reap_failed: true,
                    failure: Some(
                        seq![
                            "also failed to terminate and reap spawned app-server; preserving ownership record: "@
                                + joined(cause@, ": "@),
                        ] + start.failure->0,
                    ),
                    ..start
                },
                StartActionView::ReadTail,
            ),
        },
        (StartPhase::Tailing, StartEvent::Tail(tail)) => start.failed(
            seq![not_ready_context(tail@)] + start.failure->0,
        ),
        _ => (start, StartActionView::ReadTail),
    }
}

/// A process is started only with the lock held and no recorded process running, with just
/// these arguments; it is written down only as what it is, the leader of its own group; a
/// record is removed only once the process was ended; and a start that fails leaves no
/// process behind but one that could not be ended.
pub proof fn law_start_is_safe(start: StartView, event: StartEvent)
    requires
        start.wf(),
        expects_start(start.phase, event),
    ensures
        ({
            let (after, action) = started_step(start, event);
            &&& after.wf()
            &&& action is Spawn ==> {
                &&& after.lock_held
                &&& after.record_free
                &&& action->arguments == seq!["app-server"@, "--listen"@, start.endpoint]
            }
            &&& action matches StartActionView::WriteRecord { record } ==> {
                &&& after.child == Some(record.pid)
                &&& record.process_group_id == record.pid
                &&& record.endpoint == start.endpoint
            }
            &&& action is RemoveRecordAndReadTail ==> after.child is None
            &&& action is Fail ==> after.child is None || after.reap_failed
            &&& action is Finish && after.child is Some ==> after.recorded && after.lock_held
        }),
{
}

/// What a start asks to write down is what it learned: the process that it started, with the
/// start time and the boot that were found, in its own group, and the binary, the version and
/// the home of the runtime that was resolved. For as long as those facts hold, the record counts
/// as active, and its leader as the recorded one. Where one of the facts cannot be had, or the
/// process is in another group, nothing is written and the process is ended.
pub proof fn law_written_record_is_active(
    start: StartView,
    start_time: Result<String, Failure>,
    process_group: Result<u32, Failure>,
    boot_id: Result<Option<String>, Failure>,
)
    requires
        start.wf(),
        start.phase == StartPhase::Inspecting,
    ensures
        ({
            let event = StartEvent::Inspected { start_time, process_group, boot_id };
            let (after, action) = started_step(start, event);
            let sound = start_time is Ok && process_group is Ok && boot_id is Ok
                && process_group->Ok_0 == start.child->0;
            &&& !sound ==> action is Reap && after.child == start.child && !after.recorded
            &&& sound ==> (action matches StartActionView::WriteRecord { record } && {
                let facts = FactsView {
                    boot_id: Ok(text_view(boot_id->Ok_0)),
                    group_exists: Ok(true),
                    process_exists: Ok(true),
                    process_group: Ok(process_group->Ok_0),
                    start_time: Ok(start_time->Ok_0@),
                };
                &&& after.record == Some(record)
                &&& after.child == start.child
                &&& start.child == Some(record.pid)
                &&& record.schema_version == 1
                &&& record.process_group_id == record.pid
                &&& record.process_start_time == start_time->Ok_0@
                &&& record.boot_id == text_view(boot_id->Ok_0)
                &&& start.runtime matches Some(runtime) && {
                    &&& record.codex_bin == runtime.codex_bin
                    &&& record.codex_version == runtime.version
                    &&& record.codex_home == runtime.codex_home
                }
                &&& record.endpoint == start.endpoint
                &&& record_is_active(record, facts) == Ok::<bool, Seq<Seq<char>>>(true)
                &&& leader_is_active(record, facts) == Ok::<bool, Seq<Seq<char>>>(true)
            })
        }),
{
}

/// What a start goes by is what it was told: the runtime that was resolved is the one that is
/// started, with its own home and on the endpoint of the start; the process that came of it is
/// the one that is looked at.
pub proof fn law_resolved_runtime_is_started(start: StartView, runtime: CodexRuntime, pid: u32)
    requires
        start.wf(),
    ensures
        start.phase == StartPhase::Resolving ==> {
            let (after, action) = started_step(start, StartEvent::Runtime(Ok(runtime)));
            &&& after.phase == StartPhase::Spawning
            &&& after.runtime matches Some(kept) && {
                &&& kept.codex_bin == runtime.codex_bin@
                &&& kept.codex_home == runtime.codex_home@
                &&& kept.version == runtime.version@
            }
            &&& action matches StartActionView::Spawn { codex_bin, arguments, codex_home } && {
                &&& codex_bin == runtime.codex_bin@
                &&& codex_home == runtime.codex_home@
                &&& arguments.len() == 3
                &&& arguments[0] == "app-server"@
                &&& arguments[1] == "--listen"@
                &&& arguments[2] == start.endpoint
            }
        },
        start.phase == StartPhase::Spawning ==> {
            let (after, action) = started_step(start, StartEvent::Spawned(Ok(pid)));
            &&& after.child == Some(pid)
            &&& after.runtime == start.runtime
            &&& after.phase == StartPhase::Inspecting
            &&& action == StartActionView::Inspect { pid }
        },
{
}

/// A start that finds a listener reports on it and starts nothing, with or without the lock. One
/// that finds none takes the lock, looks once more, now refusing a listener that fails the
/// handshake, and reads the record before it resolves a runtime.
pub proof fn law_start_looks_before_it_starts(start: StartView)
    requires
        start.wf(),
    ensures
        start.phase == StartPhase::Probing || start.phase == StartPhase::ProbingLocked ==> {
            let (after, action) = started_step(start, StartEvent::Existing(Ok(true)));
            action is ReportReuse && after.phase == StartPhase::Reporting && after.child is None
        },
        start.phase == StartPhase::Probing ==> started_step(
            start,
            StartEvent::Existing(Ok(false)),
        ).1 is AcquireLock,
        start.phase == StartPhase::Locking ==> {
            let (after, action) = started_step(start, StartEvent::Locked(Ok(())));
            &&& after.phase == StartPhase::ProbingLocked
            &&& after.lock_held
            &&& action == StartActionView::ConnectExisting { reject: true }
        },
        start.phase == StartPhase::ProbingLocked ==> started_step(
            start,
            StartEvent::Existing(Ok(false)),
        ).1 is ReadRecord,
        start.phase == StartPhase::ReadingRecord ==> forall|home: String|
            (#[trigger] started_step(
                start,
                StartEvent::Record { record: Ok(None), home },
            )).1 is ResolveRuntime,
        start.phase == StartPhase::Reporting ==> forall|report: ManagedServerReport|
            (#[trigger] started_step(start, StartEvent::Reported(Ok(report)))).1
                == StartActionView::Finish(report@),
{
}

/// A start ends well only with a server that is ready, or with one that was found; what it then
/// reports of its own server is the process that it started, the binary and version that it
/// wrote down, and where that listens. A server that does not get ready is ended.
pub proof fn law_start_finishes_with_a_ready_server(start: StartView, event: StartEvent)
    requires
        start.wf(),
        expects_start(start.phase, event),
    ensures
        ({
            let (after, action) = started_step(start, event);
            &&& action matches StartActionView::Finish(report) ==> {
                ||| event matches StartEvent::Reported(Ok(told)) && report == told@
                ||| (event matches StartEvent::Ready(Ok(_))) && start.phase == StartPhase::Waiting && {
                    &&& report.status == "started"@
                    &&& report.backend == "codex-tamer"@
                    &&& report.endpoint == start.endpoint
                    &&& report.codex_home == start.runtime->0.codex_home
                    &&& report.pid == start.child
                    &&& report.codex_bin == Some(start.record->0.codex_bin)
                    &&& report.codex_version == Some(start.record->0.codex_version)
                }
            }
            &&& (event matches StartEvent::Ready(Ok(_))) ==> action is Finish
            &&& event matches StartEvent::Ready(Err(failure)) ==> action is Reap && after.failure
                == Some(failure@)
            &&& action is WaitReady ==> (event matches StartEvent::Recorded(Ok(_)))
            &&& (event matches StartEvent::Recorded(Ok(_))) ==> action is WaitReady && after.recorded
            &&& event matches StartEvent::Recorded(Err(failure)) ==> action is Reap
                && after.failure == Some(failure@) && !after.recorded
        }),
{
}

/// What was told to have gone wrong is what a start fails with, and nothing is asked for after
/// that: before a process was started at once, and after that once the process was ended.
pub proof fn law_start_fails_with_what_went_wrong(start: StartView, failure: Failure)
    requires
        start.wf(),
    ensures
        start.phase == StartPhase::Probing || start.phase == StartPhase::ProbingLocked
            ==> started_step(start, StartEvent::Existing(Err(failure))).1 == StartActionView::Fail(
            failure@,
        ),
        start.phase == StartPhase::Reporting ==> started_step(
            start,
            StartEvent::Reported(Err(failure)),
        ).1 == StartActionView::Fail(failure@),
        start.phase == StartPhase::Locking ==> started_step(
            start,
            StartEvent::Locked(Err(failure)),
        ).1 == StartActionView::Fail(failure@),
        start.phase == StartPhase::ReadingRecord ==> forall|home: String|
            (#[trigger] started_step(
                start,
                StartEvent::Record { record: Err(failure), home },
            )).1 == StartActionView::Fail(failure@),
        start.phase == StartPhase::Resolving ==> started_step(
            start,
            StartEvent::Runtime(Err(failure)),
        ).1 == StartActionView::Fail(failure@),
        start.phase == StartPhase::Spawning ==> started_step(
            start,
            StartEvent::Spawned(Err(failure)),
        ).1 == StartActionView::Fail(failure@),
        start.phase == StartPhase::Reaping ==> {
            let (after, action) = started_step(start, StartEvent::Reaped(Ok(())));
            action == StartActionView::Fail(start.failure->0) && after.child is None
        },
        start.phase == StartPhase::Reaping ==> {
            let (after, action) = started_step(start, StartEvent::Reaped(Err(failure)));
            &&& action matches StartActionView::Fail(chain) && chain.len() == start.failure->0.len()
                + 1 && chain.drop_first() == start.failure->0
            &&& after.child == start.child
            &&& after.reap_failed
        },
        start.phase == StartPhase::ReapingRecorded ==> {
            let (after, action) = started_step(start, StartEvent::Reaped(Ok(())));
            &&& action is RemoveRecordAndReadTail
            &&& after.failure == start.failure
            &&& after.child is None
        },
        start.phase == StartPhase::ReapingRecorded ==> {
            let (after, action) = started_step(start, StartEvent::Reaped(Err(failure)));
            &&& action is ReadTail
            &&& after.failure matches Some(chain) && chain.len() == start.failure->0.len() + 1
                && chain.drop_first() == start.failure->0
            &&& after.child == start.child
        },
        start.phase == StartPhase::Tailing ==> forall|tail: String|
            (#[trigger] started_step(start, StartEvent::Tail(tail))).1 matches
                StartActionView::Fail(chain) && chain.len() == start.failure->0.len() + 1
                && chain.drop_first() == start.failure->0,
{
    if start.failure is Some {
        let chain = start.failure->0;
        assert forall|text: Seq<char>| (#[trigger] (seq![text] + chain)).drop_first() == chain by {
            assert((seq![text] + chain).drop_first() =~= chain);
        }
    }
}

/// What a start says of what went wrong: whose process runs, what else went wrong, and what the
/// process complained of.
pub proof fn law_start_says_what_went_wrong(
    start: StartView,
    record: ProcessRecord,
    home: String,
    cause: Failure,
    tail: String,
)
    requires
        start.wf(),
    ensures
        start.phase == StartPhase::ReadingRecord ==> {
            let event = StartEvent::Record { record: Ok(Some(record)), home };
            let own = is_same_path(home@, start.home.normalized@) && record.endpoint@
                == start.endpoint;
            &&& !own ==> started_step(start, event).1 == StartActionView::Fail(
                seq!["managed app-server process record does not match the selected target"@],
            )
            &&& own ==> started_step(start, event).1 == StartActionView::Fail(
                seq![
                    "managed app-server pid "@ + decimal(record.pid as int)
                        + " is still running but `"@ + start.endpoint
                        + "` is not ready; refusing to start a duplicate process"@,
                ],
            )
        },
        start.phase == StartPhase::Reaping ==> (started_step(
            start,
            StartEvent::Reaped(Err(cause)),
        ).1 matches StartActionView::Fail(chain) && chain[0]
            == "also failed to terminate and reap spawned app-server: "@ + joined(cause@, ": "@)),
        start.phase == StartPhase::ReapingRecorded ==> (started_step(
            start,
            StartEvent::Reaped(Err(cause)),
        ).0.failure matches Some(chain) && chain[0]
            == "also failed to terminate and reap spawned app-server; preserving ownership record: "@
            + joined(cause@, ": "@)),
        start.phase == StartPhase::Tailing ==> (started_step(
            start,
            StartEvent::Tail(tail),
        ).1 matches StartActionView::Fail(chain) && chain[0] == if tail@.len() == 0 {
            "managed Codex app-server did not become ready"@
        } else {
            "managed Codex app-server did not become ready; stderr tail:\n"@ + tail@
        }),
{
}

/// A recorded process that still runs keeps a second one from being started.
pub proof fn law_running_process_prevents_a_duplicate(
    start: StartView,
    record: ProcessRecord,
    home: String,
)
    requires
        start.wf(),
        start.phase == StartPhase::ReadingRecord,
    ensures
        ({
            let event = StartEvent::Record { record: Ok(Some(record)), home };
            let (after, action) = started_step(start, event);
            &&& after.phase == StartPhase::Ended
            &&& action is Fail
            &&& after.child is None
        }),
{
}

fn duplicate_record(record: &ProcessRecord) -> (copy: ProcessRecord)
    ensures
        copy@ == record@,
{
    ProcessRecord {
        schema_version: record.schema_version,
        pid: record.pid,
        process_group_id: record.process_group_id,
        process_start_time: record.process_start_time.clone(),
        boot_id: clone_text(&record.boot_id),
        codex_bin: record.codex_bin.clone(),
        codex_version: record.codex_version.clone(),
        codex_home: record.codex_home.clone(),
        endpoint: record.endpoint.clone(),
    }
}

impl StartMachine {
    /// Begins a start. The first thing to do is to look for a listener, and to take one that
    /// fails the handshake for none.
    pub fn connect_or_start(endpoint: &str, home: Home) -> (begun: (StartMachine, StartAction))
        ensures
            begun.0@.wf(),
            begun.0@ == (StartView {
                endpoint: endpoint@,
                home,
                phase: StartPhase::Probing,
                lock_held: false,
                record_free: false,
                runtime: None,
                child: None,
                record: None,
                recorded: false,
                failure: None,
                reap_failed: false,
            }),
            begun.1@ == (StartActionView::ConnectExisting { reject: false }),
    {
        (
            StartMachine {
                endpoint: endpoint.to_owned(),
                home,
                phase: StartPhase::Probing,
                lock_held: false,
                record_free: false,
                runtime: None,
                child: None,
                record: None,
                recorded: false,
                failure: None,
                reap_failed: false,
            },
            StartAction::ConnectExisting { reject: false },
        )
    }

    fn fail(&mut self, failure: Failure) -> (action: StartAction)
        ensures
            (final(self)@, action@) == old(self)@.failed(failure@),
    {
        self.phase = StartPhase::Ended;
        StartAction::Fail(failure)
    }

    fn reap(&mut self, failure: Failure) -> (action: StartAction)
        ensures
            (final(self)@, action@) == old(self)@.reaping(failure@),
    {
        self.phase = StartPhase::Reaping;
        self.failure = Some(failure);
        StartAction::Reap
    }

    fn inspect(
        &mut self,
        start_time: Result<String, Failure>,
        process_group: Result<u32, Failure>,
        boot_id: Result<Option<String>, Failure>,
    ) -> (action: StartAction)
        requires
            old(self).child is Some,
            old(self).runtime is Some,
        ensures
            (final(self)@, action@) == inspected(
                old(self)@,
                text_result(start_time),
                plain_result(process_group),
                boot_result(boot_id),
            ),
    {
        let pid = match self.child {
            Some(pid) => pid,
            None => 0,
        };
        let time = match start_time {
            Ok(time) => time,
            Err(failure) => {
                return self.reap(failure);
            },
        };
        let group = match process_group {
            Ok(group) => group,
            Err(failure) => {
                return self.reap(failure);
            },
        };
        if group != pid {
            let process = decimal_text(pid as i64);
            let actual = decimal_text(group as i64);
            let mut message = concat3(
                "managed app-server pid ",
                process.as_str(),
                " started in unexpected process group ",
            );
            message.append(actual.as_str());
            return self.reap(Failure::of(message));
        }
        let boot = match boot_id {
            Ok(boot) => boot,
            Err(failure) => {
                return self.reap(failure);
            },
        };
        let record = match &self.runtime {
            Some(runtime) => ProcessRecord {
                schema_version: PROCESS_RECORD_SCHEMA_VERSION,
                pid,
                process_group_id: group,
                process_start_time: time,
                boot_id: boot,
                codex_bin: runtime.codex_bin.clone(),
                codex_version: runtime.version.clone(),
                codex_home: runtime.codex_home.clone(),
                endpoint: self.endpoint.clone(),
            },
            None => vstd::pervasive::unreached(),
        };
        let copy = duplicate_record(&record);
        self.phase = StartPhase::Recording;
        self.record = Some(record);
        StartAction::WriteRecord { record: copy }
    }

    /// What a start that found a recorded process running fails with.
    fn running(&self, record: &ProcessRecord, home: &str) -> (message: String)
        ensures
            message@ == running_failure(self@, record@, home@),
    {
        if !record_matches_target(
            record,
            home,
            self.home.normalized.as_str(),
            self.endpoint.as_str(),
        ) {
            "managed app-server process record does not match the selected target".to_owned()
        } else {
            let pid = decimal_text(record.pid as i64);
            concat5(
                "managed app-server pid ",
                pid.as_str(),
                " is still running but `",
                self.endpoint.as_str(),
                "` is not ready; refusing to start a duplicate process",
            )
        }
    }

    /// Takes in what the start is told and says what it asks for next.
    pub fn step(&mut self, event: StartEvent) -> (action: StartAction)
        requires
            old(self)@.wf(),
            expects_start(old(self).phase, event),
        ensures
            final(self)@.wf(),
            (final(self)@, action@) == started_step(old(self)@, event),
    {
        proof {
            law_start_is_safe(self@, event);
        }
        match event {
            StartEvent::Existing(existing) => match existing {
                Err(failure) => self.fail(failure),
                Ok(true) => {
                    self.phase = StartPhase::Reporting;
                    StartAction::ReportReuse
                },
                Ok(false) => if self.phase == StartPhase::Probing {
                    self.phase = StartPhase::Locking;
                    StartAction::AcquireLock
                } else {
                    self.phase = StartPhase::ReadingRecord;
                    StartAction::ReadRecord
                },
            },
            StartEvent::Reported(report) => match report {
                Err(failure) => self.fail(failure),
                Ok(report) => {
                    self.phase = StartPhase::Ended;
                    StartAction::Finish(report)
                },
            },
            StartEvent::Locked(locked) => match locked {
                Err(failure) => self.fail(failure),
                Ok(()) => {
                    self.phase = StartPhase::ProbingLocked;
                    self.lock_held = true;
                    StartAction::ConnectExisting { reject: true }
                },
            },
            StartEvent::Record { record, home } => match record {
                Err(failure) => self.fail(failure),
                Ok(Some(record)) => {
                    let message = self.running(&record, home.as_str());
                    self.fail(Failure::of(message))
                },
                Ok(None) => {
                    self.phase = StartPhase::Resolving;
                    self.record_free = true;
                    StartAction::ResolveRuntime
                },
            },
            StartEvent::Runtime(runtime) => match runtime {
                Err(failure) => self.fail(failure),
                Ok(runtime) => {
                    let mut arguments: Vec<String> = Vec::new();
                    arguments.push("app-server".to_owned());
                    arguments.push("--listen".to_owned());
                    arguments.push(self.endpoint.clone());
                    assert(text_views(arguments@) =~= seq![
                        "app-server"@,
                        "--listen"@,
                        self.endpoint@,
                    ]);
                    let codex_bin = runtime.codex_bin.clone();
                    let codex_home = runtime.codex_home.clone();
                    self.phase = StartPhase::Spawning;
                    self.runtime = Some(runtime);
                    StartAction::Spawn { codex_bin, arguments, codex_home }
                },
            },
            StartEvent::Spawned(spawned) => match spawned {
                Err(failure) => self.fail(failure),
                Ok(pid) => {
                    self.phase = StartPhase::Inspecting;
                    self.child = Some(pid);
                    StartAction::Inspect { pid }
                },
            },
            StartEvent::Inspected { start_time, process_group, boot_id } => self.inspect(
                start_time,
                process_group,
                boot_id,
            ),
            StartEvent::Recorded(written) => match written {
                Err(failure) => self.reap(failure),
                Ok(()) => {
                    self.phase = StartPhase::Waiting;
                    self.recorded = true;
                    StartAction::WaitReady
                },
            },
            StartEvent::Ready(ready) => match ready {
                Err(failure) => {
                    self.phase = StartPhase::ReapingRecorded;
                    self.failure = Some(failure);
                    StartAction::Reap
                },
                Ok(()) => {
                    self.phase = StartPhase::Ended;
                    match (&self.runtime, &self.record) {
                        (Some(runtime), Some(record)) => StartAction::Finish(
                            report_of_record(
                                "started",
                                self.endpoint.as_str(),
                                runtime.codex_home.as_str(),
                                record,
                            ),
                        ),
                        _ => vstd::pervasive::unreached(),
                    }
                },
            },
            StartEvent::Reaped(reaped) => {
                let failure = match &self.failure {
                    Some(failure) => failure.duplicate(),
                    None => vstd::pervasive::unreached(),
                };
                if self.phase == StartPhase::Reaping {
                    match reaped {
                        Ok(()) => {
                            self.child = None;
                            self.fail(failure)
                        },
                        Err(cause) => {
                            self.reap_failed = true;
                            let rendered = cause.render();
                            let mut message =
                                "also failed to terminate and reap spawned app-server: ".to_owned();
                            message.append(rendered.as_str());
                            self.fail(failure.context(message.as_str()))
                        },
                    }
                } else {
                    self.phase = StartPhase::Tailing;
                    match reaped {
                        Ok(()) => {
                            self.child = None;
                            StartAction::RemoveRecordAndReadTail
                        },
                        Err(cause) => {
                            self.reap_failed = true;
                            let rendered = cause.render();
                            let mut message =
                                "also failed to terminate and reap spawned app-server; preserving ownership record: ".to_owned();
                            message.append(rendered.as_str());
                            self.failure = Some(failure.context(message.as_str()));
                            StartAction::ReadTail
                        },
                    }
                }
            },
            StartEvent::Tail(tail) => {
                let failure = match &self.failure {
                    Some(failure) => failure.duplicate(),
                    None => vstd::pervasive::unreached(),
                };
                if tail.as_str().is_empty() {
                    self.fail(failure.context("managed Codex app-server did not become ready"))
                } else {
                    let mut message =
                        "managed Codex app-server did not become ready; stderr tail:\n".to_owned();
                    message.append(tail.as_str());
                    self.fail(failure.context(message.as_str()))
                }
            },
        }
    }
}

} // verus!
