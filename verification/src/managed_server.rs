use vstd::prelude::*;
use vstd::utf8::*;

use crate::bytes::{lossy_text, read_lossy, read_utf8, utf8_fault};
use crate::codex_runtime::SUPPORTED_CODEX_VERSION;
use crate::config::Endpoint;
use crate::errors::Failure;
use crate::faults::{
    i32_fault, i32_fault_text, u32_fault, u32_fault_text, u64_fault, u64_fault_text,
};
use crate::json::Json;
use crate::paths::{is_same_path, join_path, joined_path, parent_of, parent_path, same_path};
use crate::rpc::{InitializeInfo, PeerIdentity, CLIENT_NAME};
use crate::text::{
    concat3, concat5, decimal, decimal_text, digits, digits_text, same_text, text_is, text_view,
};
use crate::words::{
    parse_u64, parsed_u64, rsplit_once, split_at_last, split_words, text_views, trim, trimmed,
    words,
};

verus! {

/// How long a start, a lock or a stop may take, in seconds.
pub const START_TIMEOUT_SECS: u64 = 10;

/// How long to wait between two looks, in milliseconds.
pub const START_POLL_INTERVAL_MILLIS: u64 = 100;

/// How long a listener may take to accept a connection, in milliseconds.
pub const LISTENER_PROBE_TIMEOUT_MILLIS: u64 = 250;

/// How many bytes of a log are shown.
pub const LOG_TAIL_BYTES: usize = 4096;

/// The version of the process record's format.
pub const PROCESS_RECORD_SCHEMA_VERSION: u32 = 1;

/// What a command says about the managed app-server.
#[derive(Debug, Clone)]
pub struct ManagedServerReport {
    pub status: String,
    pub backend: String,
    pub endpoint: String,
    pub codex_home: String,
    pub codex_bin: Option<String>,
    pub codex_version: Option<String>,
    pub pid: Option<u32>,
}

/// The mathematical value of a [`ManagedServerReport`].
#[verifier::ext_equal]
pub struct ReportView {
    pub status: Seq<char>,
    pub backend: Seq<char>,
    pub endpoint: Seq<char>,
    pub codex_home: Seq<char>,
    pub codex_bin: Option<Seq<char>>,
    pub codex_version: Option<Seq<char>>,
    pub pid: Option<u32>,
}

impl View for ManagedServerReport {
    type V = ReportView;

    open spec fn view(&self) -> ReportView {
        ReportView {
            status: self.status@,
            backend: self.backend@,
            endpoint: self.endpoint@,
            codex_home: self.codex_home@,
            codex_bin: text_view(self.codex_bin),
            codex_version: text_view(self.codex_version),
            pid: self.pid,
        }
    }
}

/// What is written down of an app-server that this client started: enough to know it again.
#[derive(Debug, Clone, PartialEq, Eq)]
pub struct ProcessRecord {
    pub schema_version: u32,
    pub pid: u32,
    pub process_group_id: u32,
    pub process_start_time: String,
    pub boot_id: Option<String>,
    pub codex_bin: String,
    pub codex_version: String,
    pub codex_home: String,
    pub endpoint: String,
}

/// The mathematical value of a [`ProcessRecord`].
#[verifier::ext_equal]
pub struct RecordView {
    pub schema_version: u32,
    pub pid: u32,
    pub process_group_id: u32,
    pub process_start_time: Seq<char>,
    pub boot_id: Option<Seq<char>>,
    pub codex_bin: Seq<char>,
    pub codex_version: Seq<char>,
    pub codex_home: Seq<char>,
    pub endpoint: Seq<char>,
}

impl View for ProcessRecord {
    type V = RecordView;

    open spec fn view(&self) -> RecordView {
        RecordView {
            schema_version: self.schema_version,
            pid: self.pid,
            process_group_id: self.process_group_id,
            process_start_time: self.process_start_time@,
            boot_id: text_view(self.boot_id),
            codex_bin: self.codex_bin@,
            codex_version: self.codex_version@,
            codex_home: self.codex_home@,
            endpoint: self.endpoint@,
        }
    }
}

/// Where the managed app-server's files are.
#[derive(Debug)]
pub struct ManagedPaths {
    pub directory: String,
    pub lock: String,
    pub process: String,
    pub stderr_log: String,
}

impl ManagedPaths {
    /// The files stand beside the socket.
    pub fn new(endpoint: &Endpoint) -> (paths: Result<ManagedPaths, Failure>)
        ensures
            match (paths, *endpoint) {
                (Ok(paths), Endpoint::Unix { path }) => {
                    &&& parent_of(path@) == Some(paths.directory@)
                    &&& paths.lock@ == joined_path(paths.directory@, "start.lock"@)
                    &&& paths.process@ == joined_path(paths.directory@, "process.json"@)
                    &&& paths.stderr_log@ == joined_path(
                        paths.directory@,
                        "app-server.stderr.log"@,
                    )
                },
                (Err(failure), Endpoint::Unix { path }) => {
                    &&& parent_of(path@) is None
                    &&& failure@ == seq!["managed app-server socket has no parent directory"@]
                },
                (Err(failure), Endpoint::WebSocket { .. }) => failure@
                    == seq!["managed app-server requires a Unix socket endpoint"@],
                (Ok(_), Endpoint::WebSocket { .. }) => false,
            },
    {
        match endpoint {
            Endpoint::Unix { path } => match parent_path(path.as_str()) {
                Some(directory) => Ok(
                    ManagedPaths {
                        lock: join_path(directory.as_str(), "start.lock"),
                        process: join_path(directory.as_str(), "process.json"),
                        stderr_log: join_path(directory.as_str(), "app-server.stderr.log"),
                        directory,
                    },
                ),
                None => Err(Failure::new("managed app-server socket has no parent directory")),
            },
            Endpoint::WebSocket { .. } => Err(
                Failure::new("managed app-server requires a Unix socket endpoint"),
            ),
        }
    }

    /// The directory of the managed directory, which must be private too.
    pub fn root(&self) -> (root: Result<String, Failure>)
        ensures
            match root {
                Ok(root) => parent_of(self.directory@) == Some(root@),
                Err(failure) => parent_of(self.directory@) is None && failure@
                    == seq!["managed runtime directory has no parent"@],
            },
    {
        match parent_path(self.directory.as_str()) {
            Some(root) => Ok(root),
            None => Err(Failure::new("managed runtime directory has no parent")),
        }
    }
}

/// Refuses a runtime directory that others could reach into.
pub fn check_private_directory(
    path: &str,
    is_directory: bool,
    uid: u32,
    mode: u32,
    expected_uid: u32,
) -> (private: Result<(), Failure>)
    ensures
        match private {
            Ok(()) => is_directory && uid == expected_uid && mode & 0o777 == 0o700,
            Err(failure) => {
                &&& !(is_directory && uid == expected_uid && mode & 0o777 == 0o700)
                &&& failure@ == seq![
                    "managed runtime directory `"@ + path@ + "` must be owned by uid "@ + decimal(
                        expected_uid as int,
                    ) + " with mode 0700"@,
                ]
            },
        },
{
    if !is_directory || uid != expected_uid || mode & 0o777 != 0o700 {
        let owner = decimal_text(expected_uid as i64);
        return Err(
            Failure::of(
                concat5(
                    "managed runtime directory `",
                    path,
                    "` must be owned by uid ",
                    owner.as_str(),
                    " with mode 0700",
                ),
            ),
        );
    }
    Ok(())
}

/// Refuses a runtime file that others could reach into.
pub fn check_private_file(
    path: &str,
    is_file: bool,
    uid: u32,
    mode: u32,
    expected_uid: u32,
) -> (private: Result<(), Failure>)
    ensures
        match private {
            Ok(()) => is_file && uid == expected_uid && mode & 0o077 == 0,
            Err(failure) => {
                &&& !(is_file && uid == expected_uid && mode & 0o077 == 0)
                &&& failure@ == seq![
                    "managed runtime file `"@ + path@ + "` must be owned by uid "@ + decimal(
                        expected_uid as int,
                    ) + " and private"@,
                ]
            },
        },
{
    if !is_file || uid != expected_uid || mode & 0o077 != 0 {
        let owner = decimal_text(expected_uid as i64);
        return Err(
            Failure::of(
                concat5(
                    "managed runtime file `",
                    path,
                    "` must be owned by uid ",
                    owner.as_str(),
                    " and private",
                ),
            ),
        );
    }
    Ok(())
}

/// How an attempt at the start lock went.
#[derive(Debug)]
pub enum LockAttempt {
    Acquired,
    /// Another process holds the lock.
    Busy,
    Failed(Failure),
}

/// What to do about the start lock next.
#[derive(Debug)]
pub enum LockStep {
    Acquired,
    Retry,
    Fail(Failure),
}

pub fn acquire_start_lock(attempt: LockAttempt, now: u64, deadline: u64) -> (step: LockStep)
    ensures
        match attempt {
            LockAttempt::Acquired => step is Acquired,
            LockAttempt::Busy => if now >= deadline {
                step matches LockStep::Fail(failure) && failure@
                    == seq!["timed out waiting for managed app-server start lock"@]
            } else {
                step is Retry
            },
            LockAttempt::Failed(cause) => step matches LockStep::Fail(failure) && failure@
                == seq!["failed to acquire managed app-server start lock"@] + cause@,
        },
{
    match attempt {
        LockAttempt::Acquired => LockStep::Acquired,
        LockAttempt::Busy => if now >= deadline {
            LockStep::Fail(Failure::new("timed out waiting for managed app-server start lock"))
        } else {
            LockStep::Retry
        },
        LockAttempt::Failed(cause) => LockStep::Fail(
            cause.context("failed to acquire managed app-server start lock"),
        ),
    }
}

/// The start time that a process's status line gives: the twentieth word after the command's
/// name, which is a number.
pub open spec fn start_time_of_stat(stat: Seq<char>, path: Seq<char>) -> Result<
    Seq<char>,
    Seq<Seq<char>>,
> {
    let subject = "managed app-server identity `"@ + path;
    match split_at_last(stat, ')') {
        None => Err(seq![subject + "` is malformed"@]),
        Some((_, rest)) => {
            let fields = words(rest);
            if fields.len() <= 19 {
                Err(seq![subject + "` has no start time"@])
            } else {
                match parsed_u64(fields[19]) {
                    Some(time) => Ok("linux-procfs:"@ + digits(time as nat)),
                    None => Err(
                        seq![subject + "` has an invalid start time"@, u64_fault(fields[19])],
                    ),
                }
            }
        },
    }
}

/// The view of a text or a failure.
pub open spec fn text_result(result: Result<String, Failure>) -> Result<
    Seq<char>,
    Seq<Seq<char>>,
> {
    match result {
        Ok(text) => Ok(text@),
        Err(failure) => Err(failure@),
    }
}

pub fn process_start_time_from_stat(stat: &str, path: &str) -> (time: Result<String, Failure>)
    ensures
        text_result(time) == start_time_of_stat(stat@, path@),
{
    let rest = match rsplit_once(stat, ')') {
        Some((_, rest)) => rest,
        None => {
            return Err(
                Failure::of(concat3("managed app-server identity `", path, "` is malformed")),
            );
        },
    };
    let fields = split_words(rest);
    let ghost views = words(rest@);
    assert(views == text_views(fields@));
    if fields.len() <= 19 {
        return Err(
            Failure::of(concat3("managed app-server identity `", path, "` has no start time")),
        );
    }
    assert(views[19] == fields@[19]@);
    match parse_u64(fields[19].as_str()) {
        Some(time) => {
            let number = digits_text(time);
            let mut text = "linux-procfs:".to_owned();
            text.append(number.as_str());
            Ok(text)
        },
        None => {
            let context = concat3(
                "managed app-server identity `",
                path,
                "` has an invalid start time",
            );
            let fault = u64_fault_text(fields[19].as_str());
            Err(Failure::caused(context.as_str(), fault.as_str()))
        },
    }
}

/// The start time that `ps` prints for a process.
pub open spec fn start_time_of_ps(succeeded: bool, stdout: Seq<u8>, pid: u32) -> Result<
    Seq<char>,
    Seq<Seq<char>>,
> {
    if !succeeded {
        Err(
            seq!["failed to read start time for managed app-server pid "@ + decimal(pid as int)],
        )
    } else if !valid_utf8(stdout) {
        Err(
            seq![
                "managed app-server process start time was not UTF-8"@,
                utf8_fault(stdout),
            ],
        )
    } else {
        let time = trimmed(decode_utf8(stdout));
        if time.len() == 0 {
            Err(seq!["managed app-server pid "@ + decimal(pid as int) + " has no start time"@])
        } else {
            Ok("ps-utc:"@ + time)
        }
    }
}

pub fn process_start_time_from_ps(succeeded: bool, stdout: Vec<u8>, pid: u32) -> (time: Result<
    String,
    Failure,
>)
    ensures
        text_result(time) == start_time_of_ps(succeeded, stdout@, pid),
{
    let number = decimal_text(pid as i64);
    if !succeeded {
        let mut message = "failed to read start time for managed app-server pid ".to_owned();
        message.append(number.as_str());
        return Err(Failure::of(message));
    }
    let output = match read_utf8(stdout) {
        Ok(output) => output,
        Err(fault) => {
            return Err(
                Failure::caused(
                    "managed app-server process start time was not UTF-8",
                    fault.as_str(),
                ),
            );
        },
    };
    let text = trim(output.as_str());
    if text.is_empty() {
        return Err(
            Failure::of(
                concat3("managed app-server pid ", number.as_str(), " has no start time"),
            ),
        );
    }
    let mut time = "ps-utc:".to_owned();
    time.append(text);
    Ok(time)
}

/// The group of a process, by what the system answered.
pub fn read_process_group(pid: u32, answer: Result<i32, Failure>) -> (group: Result<u32, Failure>)
    ensures
        match (answer, group) {
            (Ok(raw), Ok(group)) => raw >= 0 && group == raw,
            (Ok(raw), Err(failure)) => raw < 0 && failure@ == seq![
                "managed app-server process group "@ + decimal(raw as int) + " is invalid"@,
                u32_fault(raw),
            ],
            (Err(cause), Err(failure)) => failure@ == seq![
                "failed to inspect process group for pid "@ + decimal(pid as int),
            ] + cause@,
            (Err(_), Ok(_)) => false,
        },
{
    match answer {
        Ok(raw) => if raw < 0 {
            let number = decimal_text(raw as i64);
            let context = concat3(
                "managed app-server process group ",
                number.as_str(),
                " is invalid",
            );
            let fault = u32_fault_text(raw);
            Err(Failure::caused(context.as_str(), fault.as_str()))
        } else {
            Ok(raw as u32)
        },
        Err(cause) => {
            let number = decimal_text(pid as i64);
            let mut message = "failed to inspect process group for pid ".to_owned();
            message.append(number.as_str());
            Err(cause.context(message.as_str()))
        },
    }
}

/// The id of the system's boot, as Linux tells it.
pub fn current_boot_id(text: &str) -> (id: Result<String, Failure>)
    ensures
        match id {
            Ok(id) => trimmed(text@).len() > 0 && id@ == trimmed(text@),
            Err(failure) => trimmed(text@).len() == 0 && failure@
                == seq!["Linux boot identity is empty"@],
        },
{
    let id = trim(text);
    if id.is_empty() {
        return Err(Failure::new("Linux boot identity is empty"));
    }
    Ok(id.to_owned())
}

/// What the system answered to a signal.
#[derive(Debug)]
pub enum SignalOutcome {
    Delivered,
    NoSuchProcess,
    NotPermitted(Failure),
    Failed(Failure),
}

/// Whether a process, or a group, exists, by what a signal that does nothing came to: one
/// that this user may not signal exists as well. `subject` names it for a failure.
pub fn exists_by_signal(outcome: SignalOutcome, subject: &str) -> (exists: Result<bool, Failure>)
    ensures
        match outcome {
            SignalOutcome::Delivered => exists == Ok::<bool, Failure>(true),
            SignalOutcome::NotPermitted(_) => exists == Ok::<bool, Failure>(true),
            SignalOutcome::NoSuchProcess => exists == Ok::<bool, Failure>(false),
            SignalOutcome::Failed(cause) => exists matches Err(failure) && failure@ == seq![
                "failed to inspect "@ + subject@,
            ] + cause@,
        },
{
    match outcome {
        SignalOutcome::Delivered => Ok(true),
        SignalOutcome::NotPermitted(_) => Ok(true),
        SignalOutcome::NoSuchProcess => Ok(false),
        SignalOutcome::Failed(cause) => {
            let mut message = "failed to inspect ".to_owned();
            message.append(subject);
            Err(cause.context(message.as_str()))
        },
    }
}

/// Whether a group was signalled: one that is gone needs no signal.
pub fn signal_process_group(outcome: SignalOutcome, process_group: u32) -> (signalled: Result<
    (),
    Failure,
>)
    ensures
        match outcome {
            SignalOutcome::Delivered => signalled is Ok,
            SignalOutcome::NoSuchProcess => signalled is Ok,
            SignalOutcome::NotPermitted(cause) => signalled matches Err(failure) && failure@ == seq![
                "failed to signal process group "@ + decimal(process_group as int),
            ] + cause@,
            SignalOutcome::Failed(cause) => signalled matches Err(failure) && failure@ == seq![
                "failed to signal process group "@ + decimal(process_group as int),
            ] + cause@,
        },
{
    let cause = match outcome {
        SignalOutcome::Delivered => {
            return Ok(());
        },
        SignalOutcome::NoSuchProcess => {
            return Ok(());
        },
        SignalOutcome::NotPermitted(cause) => cause,
        SignalOutcome::Failed(cause) => cause,
    };
    let number = decimal_text(process_group as i64);
    let mut message = "failed to signal process group ".to_owned();
    message.append(number.as_str());
    Err(cause.context(message.as_str()))
}

/// A process or group id as the system takes it.
pub fn raw_process_id(id: u32, subject: &str) -> (raw: Result<i32, Failure>)
    ensures
        match raw {
            Ok(raw) => id <= i32::MAX && raw == id,
            Err(failure) => id > i32::MAX && failure@ == seq![
                "managed app-server "@ + subject@ + " "@ + decimal(id as int)
                    + " is out of range"@,
                i32_fault(id),
            ],
        },
{
    if id > 0x7fff_ffff {
        let number = decimal_text(id as i64);
        let context = concat5(
            "managed app-server ",
            subject,
            " ",
            number.as_str(),
            " is out of range",
        );
        let fault = i32_fault_text(id);
        return Err(Failure::caused(context.as_str(), fault.as_str()));
    }
    Ok(id as i32)
}

/// What the system says of a recorded process. Each is asked on its own, and may fail to be
/// answered.
#[derive(Debug)]
pub struct ProcessFacts {
    pub boot_id: Result<Option<String>, Failure>,
    pub group_exists: Result<bool, Failure>,
    pub process_exists: Result<bool, Failure>,
    pub process_group: Result<u32, Failure>,
    pub start_time: Result<String, Failure>,
}

/// The mathematical value of [`ProcessFacts`].
#[verifier::ext_equal]
pub struct FactsView {
    pub boot_id: Result<Option<Seq<char>>, Seq<Seq<char>>>,
    pub group_exists: Result<bool, Seq<Seq<char>>>,
    pub process_exists: Result<bool, Seq<Seq<char>>>,
    pub process_group: Result<u32, Seq<Seq<char>>>,
    pub start_time: Result<Seq<char>, Seq<Seq<char>>>,
}

/// The view of a plain value or a failure.
pub open spec fn plain_result<T>(result: Result<T, Failure>) -> Result<T, Seq<Seq<char>>> {
    match result {
        Ok(value) => Ok(value),
        Err(failure) => Err(failure@),
    }
}

/// The view of a boot id or a failure.
pub open spec fn boot_result(result: Result<Option<String>, Failure>) -> Result<
    Option<Seq<char>>,
    Seq<Seq<char>>,
> {
    match result {
        Ok(id) => Ok(text_view(id)),
        Err(failure) => Err(failure@),
    }
}

impl View for ProcessFacts {
    type V = FactsView;

    open spec fn view(&self) -> FactsView {
        FactsView {
            boot_id: boot_result(self.boot_id),
            group_exists: plain_result(self.group_exists),
            process_exists: plain_result(self.process_exists),
            process_group: plain_result(self.process_group),
            start_time: text_result(self.start_time),
        }
    }
}

/// Whether the process that runs under the recorded id is the recorded one.
pub open spec fn same_leader(record: RecordView, facts: FactsView) -> Result<bool, Seq<Seq<char>>> {
    match facts.process_group {
        Err(failure) => Err(failure),
        Ok(group) => if group != record.process_group_id {
            Ok(false)
        } else {
            match facts.start_time {
                Err(failure) => Err(failure),
                Ok(time) => Ok(time == record.process_start_time),
            }
        },
    }
}

/// Whether a recorded app-server still runs: its group exists since the same boot, and its
/// leader, where it still exists, is the recorded one.
pub open spec fn record_is_active(record: RecordView, facts: FactsView) -> Result<
    bool,
    Seq<Seq<char>>,
> {
    if record.schema_version != PROCESS_RECORD_SCHEMA_VERSION {
        Err(
            seq![
                "unsupported managed process record schema "@ + decimal(
                    record.schema_version as int,
                ) + "; expected 1"@,
            ],
        )
    } else {
        match facts.boot_id {
            Err(failure) => Err(failure),
            Ok(boot) => if boot != record.boot_id {
                Ok(false)
            } else {
                match facts.group_exists {
                    Err(failure) => Err(failure),
                    Ok(false) => Ok(false),
                    Ok(true) => match facts.process_exists {
                        Err(failure) => Err(failure),
                        Ok(false) => Ok(true),
                        Ok(true) => same_leader(record, facts),
                    },
                }
            },
        }
    }
}

/// Whether the leader of a recorded app-server still runs, and so proves that the group is
/// the recorded one.
pub open spec fn leader_is_active(record: RecordView, facts: FactsView) -> Result<
    bool,
    Seq<Seq<char>>,
> {
    if record.schema_version != PROCESS_RECORD_SCHEMA_VERSION {
        Ok(false)
    } else {
        match facts.boot_id {
            Err(failure) => Err(failure),
            Ok(boot) => if boot != record.boot_id {
                Ok(false)
            } else {
                match facts.process_exists {
                    Err(failure) => Err(failure),
                    Ok(false) => Ok(false),
                    Ok(true) => same_leader(record, facts),
                }
            },
        }
    }
}

/// Whether two optional texts are the same.
fn same_optional_text(a: &Option<String>, b: &Option<String>) -> (same: bool)
    ensures
        same == (text_view(*a) == text_view(*b)),
{
    match b {
        Some(b) => text_is(a, b.as_str()),
        None => a.is_none(),
    }
}

fn leader_matches(record: &ProcessRecord, facts: &ProcessFacts) -> (matches: Result<bool, Failure>)
    ensures
        plain_result(matches) == same_leader(record@, facts@),
{
    match &facts.process_group {
        Err(failure) => Err(failure.duplicate()),
        Ok(group) => if *group != record.process_group_id {
            Ok(false)
        } else {
            match &facts.start_time {
                Err(failure) => Err(failure.duplicate()),
                Ok(time) => Ok(same_text(time.as_str(), record.process_start_time.as_str())),
            }
        },
    }
}

pub fn process_matches_record(record: &ProcessRecord, facts: &ProcessFacts) -> (active: Result<
    bool,
    Failure,
>)
    ensures
        plain_result(active) == record_is_active(record@, facts@),
{
    if record.schema_version != PROCESS_RECORD_SCHEMA_VERSION {
        let number = decimal_text(record.schema_version as i64);
        return Err(
            Failure::of(
                concat3(
                    "unsupported managed process record schema ",
                    number.as_str(),
                    "; expected 1",
                ),
            ),
        );
    }
    match &facts.boot_id {
        Err(failure) => {
            return Err(failure.duplicate());
        },
        Ok(boot) => {
            if !same_optional_text(boot, &record.boot_id) {
                return Ok(false);
            }
        },
    }
    match &facts.group_exists {
        Err(failure) => {
            return Err(failure.duplicate());
        },
        Ok(exists) => {
            if !*exists {
                return Ok(false);
            }
        },
    }
    match &facts.process_exists {
        Err(failure) => {
            return Err(failure.duplicate());
        },
        Ok(exists) => {
            if !*exists {
                return Ok(true);
            }
        },
    }
    leader_matches(record, facts)
}

pub fn leader_matches_record(record: &ProcessRecord, facts: &ProcessFacts) -> (active: Result<
    bool,
    Failure,
>)
    ensures
        plain_result(active) == leader_is_active(record@, facts@),
{
    if record.schema_version != PROCESS_RECORD_SCHEMA_VERSION {
        return Ok(false);
    }
    match &facts.boot_id {
        Err(failure) => {
            return Err(failure.duplicate());
        },
        Ok(boot) => {
            if !same_optional_text(boot, &record.boot_id) {
                return Ok(false);
            }
        },
    }
    match &facts.process_exists {
        Err(failure) => {
            return Err(failure.duplicate());
        },
        Ok(exists) => {
            if !*exists {
                return Ok(false);
            }
        },
    }
    leader_matches(record, facts)
}

/// What a process record that was read leads to.
#[derive(Debug)]
pub enum RecordStep {
    /// The recorded app-server runs.
    Active(ProcessRecord),
    /// It does not: the record is to be removed.
    Stale,
}

/// Whether a process record has the shape that tells its process apart from others. One from
/// before records had a version does not, and is preserved.
pub fn check_record_shape(record: &Json, path: &str) -> (shaped: Result<(), Failure>)
    ensures
        match shaped {
            Ok(()) => record@.get("schemaVersion"@) is Some,
            Err(failure) => record@.get("schemaVersion"@) is None && failure@ == seq![
                "legacy process record `"@ + path@
                    + "` cannot be safely validated; preserving it"@,
            ],
        },
{
    if record.get("schemaVersion").is_none() {
        return Err(
            Failure::of(
                concat3(
                    "legacy process record `",
                    path,
                    "` cannot be safely validated; preserving it",
                ),
            ),
        );
    }
    Ok(())
}

/// Judges a process record by what the system says of its process. It is stale only where
/// the process is known not to be the recorded one.
pub fn read_active_process_record(record: ProcessRecord, facts: &ProcessFacts) -> (step: Result<
    RecordStep,
    Failure,
>)
    ensures
        match (step, record_is_active(record@, facts@)) {
            (Ok(RecordStep::Active(active)), Ok(true)) => active == record,
            (Ok(RecordStep::Stale), Ok(false)) => true,
            (Err(failure), Err(cause)) => failure@ == cause,
            _ => false,
        },
{
    match process_matches_record(&record, facts) {
        Ok(true) => Ok(RecordStep::Active(record)),
        Ok(false) => Ok(RecordStep::Stale),
        Err(failure) => Err(failure),
    }
}

/// The end of a log, as text without the white space around it.
pub open spec fn tail_of_log(bytes: Seq<u8>) -> Seq<u8> {
    if bytes.len() > LOG_TAIL_BYTES {
        bytes.skip(bytes.len() - LOG_TAIL_BYTES)
    } else {
        bytes
    }
}

pub fn read_log_tail(bytes: &Vec<u8>) -> (tail: String)
    ensures
        tail@ == trimmed(lossy_text(tail_of_log(bytes@))),
{
    let start: usize = if bytes.len() > LOG_TAIL_BYTES {
        bytes.len() - LOG_TAIL_BYTES
    } else {
        0
    };
    let end = vstd::slice::slice_subrange(bytes.as_slice(), start, bytes.len());
    assert(end@ =~= tail_of_log(bytes@));
    let text = read_lossy(end);
    trim(text.as_str()).to_owned()
}

/// What is wrong with the product that a server names first in its user agent, if anything. A
/// wrong version is named before a wrong product.
pub open spec fn user_agent_fault(user_agent: Seq<char>) -> Option<Seq<char>> {
    let products = words(user_agent);
    if products.len() == 0 {
        Some("app-server initialize response has an empty userAgent"@)
    } else {
        match split_at_last(products[0], '/') {
            None => Some("app-server userAgent `"@ + user_agent + "` has no version"@),
            Some((name, version)) => if version != SUPPORTED_CODEX_VERSION@ {
                Some(
                    "app-server version `"@ + version
                        + "` is incompatible; expected reviewed Codex 0.146.0"@,
                )
            } else if name != CLIENT_NAME@ {
                Some(
                    "app-server product `"@ + name
                        + "` is incompatible; expected managed client product `codex-tamer`"@,
                )
            } else {
                None
            },
        }
    }
}

/// The version that a server names in its user agent, which must be the supported one.
pub fn server_version_from_user_agent(user_agent: &str) -> (version: Result<String, Failure>)
    ensures
        match version {
            Ok(version) => user_agent_fault(user_agent@) is None && version@
                == SUPPORTED_CODEX_VERSION@,
            Err(failure) => user_agent_fault(user_agent@) matches Some(fault) && failure@
                == seq![fault],
        },
{
    let products = split_words(user_agent);
    let ghost views = words(user_agent@);
    assert(views == text_views(products@));
    if products.len() == 0 {
        return Err(Failure::new("app-server initialize response has an empty userAgent"));
    }
    assert(views[0] == products@[0]@);
    let (name, version) = match rsplit_once(products[0].as_str(), '/') {
        Some(parts) => parts,
        None => {
            return Err(
                Failure::of(concat3("app-server userAgent `", user_agent, "` has no version")),
            );
        },
    };
    if !same_text(version, SUPPORTED_CODEX_VERSION) {
        return Err(
            Failure::of(
                concat3(
                    "app-server version `",
                    version,
                    "` is incompatible; expected reviewed Codex 0.146.0",
                ),
            ),
        );
    }
    if !same_text(name, CLIENT_NAME) {
        return Err(
            Failure::of(
                concat3(
                    "app-server product `",
                    name,
                    "` is incompatible; expected managed client product `codex-tamer`",
                ),
            ),
        );
    }
    Ok(version.to_owned())
}

/// A directory, by the path that names it and the path that the file system knows it under.
#[derive(Debug)]
pub struct Home {
    pub path: String,
    pub normalized: String,
}

impl Home {
    pub open spec fn is(self, other: Home) -> bool {
        is_same_path(self.normalized@, other.normalized@)
    }

    pub fn same(&self, other: &Home) -> (same: bool)
        ensures
            same == self.is(*other),
    {
        same_path(self.normalized.as_str(), other.normalized.as_str())
    }
}

/// What is wrong with a server as the managed one, if anything: it must be the supported
/// release and work in the selected home.
pub open spec fn identity_fault(user_agent: Seq<char>, reported: Home, selected: Home) -> Option<
    Seq<char>,
> {
    match user_agent_fault(user_agent) {
        Some(fault) => Some(fault),
        None => if !reported.is(selected) {
            Some(
                "managed app-server reported CODEX_HOME `"@ + reported.path@ + "`, expected `"@
                    + selected.path@ + "`"@,
            )
        } else {
            None
        },
    }
}

/// Whether a failure has just this to say.
pub open spec fn is_fault(failure: Failure, fault: Option<Seq<char>>) -> bool {
    fault matches Some(text) && failure@ == seq![text]
}

pub fn validate_managed_identity(info: &InitializeInfo, reported: &Home, selected: &Home) -> (valid:
    Result<(), Failure>)
    ensures
        match valid {
            Ok(()) => identity_fault(info.user_agent@, *reported, *selected) is None,
            Err(failure) => is_fault(
                failure,
                identity_fault(info.user_agent@, *reported, *selected),
            ),
        },
{
    if let Err(failure) = server_version_from_user_agent(info.user_agent.as_str()) {
        return Err(failure);
    }
    if !reported.same(selected) {
        return Err(
            Failure::of(
                concat5(
                    "managed app-server reported CODEX_HOME `",
                    reported.path.as_str(),
                    "`, expected `",
                    selected.path.as_str(),
                    "`",
                ),
            ),
        );
    }
    Ok(())
}

/// What is wrong with whoever is at the other end of the managed socket, if anything: it
/// must be this user.
pub open spec fn peer_uid_fault(peer: Option<PeerIdentity>, expected_uid: u32) -> Option<
    Seq<char>,
> {
    match peer {
        None => Some("managed Unix listener did not expose peer credentials"@),
        Some(peer) => if peer.uid != expected_uid {
            Some(
                "managed app-server peer uid "@ + decimal(peer.uid as int)
                    + " does not match current uid "@ + decimal(expected_uid as int),
            )
        } else {
            None
        },
    }
}

pub fn validate_managed_peer_uid(peer: Option<PeerIdentity>, expected_uid: u32) -> (valid: Result<
    PeerIdentity,
    Failure,
>)
    ensures
        match valid {
            Ok(valid) => peer_uid_fault(peer, expected_uid) is None && peer == Some(valid),
            Err(failure) => is_fault(failure, peer_uid_fault(peer, expected_uid)),
        },
{
    let peer = match peer {
        Some(peer) => peer,
        None => {
            return Err(Failure::new("managed Unix listener did not expose peer credentials"));
        },
    };
    if peer.uid != expected_uid {
        let actual = decimal_text(peer.uid as i64);
        let expected = decimal_text(expected_uid as i64);
        let mut message = concat3(
            "managed app-server peer uid ",
            actual.as_str(),
            " does not match current uid ",
        );
        message.append(expected.as_str());
        return Err(Failure::of(message));
    }
    Ok(peer)
}

/// Whether a connection is one to the managed app-server: this user's, of the supported
/// release, in the selected home.
pub fn validate_managed_connection(
    peer: Option<PeerIdentity>,
    expected_uid: u32,
    info: &InitializeInfo,
    reported: &Home,
    selected: &Home,
) -> (valid: Result<(), Failure>)
    ensures
        ({
            let fault = match peer_uid_fault(peer, expected_uid) {
                Some(fault) => Some(fault),
                None => identity_fault(info.user_agent@, *reported, *selected),
            };
            match valid {
                Ok(()) => fault is None,
                Err(failure) => is_fault(failure, fault),
            }
        }),
{
    if let Err(failure) = validate_managed_peer_uid(peer, expected_uid) {
        return Err(failure);
    }
    validate_managed_identity(info, reported, selected)
}

/// What keeps a peer from being the recorded app-server, if anything: it must be this user's
/// and in the recorded group, since the same boot.
pub open spec fn peer_fault(
    peer: Option<PeerIdentity>,
    expected_uid: u32,
    record: RecordView,
    peer_group: Result<u32, Seq<Seq<char>>>,
    boot_id: Result<Option<Seq<char>>, Seq<Seq<char>>>,
) -> Option<Seq<Seq<char>>> {
    match peer_uid_fault(peer, expected_uid) {
        Some(fault) => Some(seq![fault]),
        None => match peer->0.pid {
            None => Some(seq!["managed app-server peer did not expose a process id"@]),
            Some(pid) => match peer_group {
                Err(failure) => Some(failure),
                Ok(group) => if group != record.process_group_id {
                    Some(
                        seq![
                            "managed app-server peer pid "@ + decimal(pid as int)
                                + " belongs to process group "@ + decimal(group as int)
                                + ", expected "@ + decimal(record.process_group_id as int),
                        ],
                    )
                } else {
                    match boot_id {
                        Err(failure) => Some(failure),
                        Ok(boot) => if boot != record.boot_id {
                            Some(
                                seq![
                                    "managed app-server process record belongs to another system boot"@,
                                ],
                            )
                        } else {
                            None
                        },
                    }
                },
            },
        },
    }
}

/// Whether a peer is the recorded app-server, given the group that its process is in and the
/// current boot.
pub fn validate_peer_identity(
    peer: Option<PeerIdentity>,
    expected_uid: u32,
    record: &ProcessRecord,
    peer_group: &Result<u32, Failure>,
    boot_id: &Result<Option<String>, Failure>,
) -> (valid: Result<(), Failure>)
    ensures
        match valid {
            Ok(()) => peer_fault(
                peer,
                expected_uid,
                record@,
                plain_result(*peer_group),
                boot_result(*boot_id),
            ) is None,
            Err(failure) => peer_fault(
                peer,
                expected_uid,
                record@,
                plain_result(*peer_group),
                boot_result(*boot_id),
            ) == Some(failure@),
        },
{
    let peer = match validate_managed_peer_uid(peer, expected_uid) {
        Ok(peer) => peer,
        Err(failure) => {
            return Err(failure);
        },
    };
    let pid = match peer.pid {
        Some(pid) => pid,
        None => {
            return Err(Failure::new("managed app-server peer did not expose a process id"));
        },
    };
    match peer_group {
        Err(failure) => {
            return Err(failure.duplicate());
        },
        Ok(group) => {
            if *group != record.process_group_id {
                let process = decimal_text(pid as i64);
                let actual = decimal_text(*group as i64);
                let expected = decimal_text(record.process_group_id as i64);
                let mut message = concat5(
                    "managed app-server peer pid ",
                    process.as_str(),
                    " belongs to process group ",
                    actual.as_str(),
                    ", expected ",
                );
                message.append(expected.as_str());
                return Err(Failure::of(message));
            }
        },
    }
    match boot_id {
        Err(failure) => Err(failure.duplicate()),
        Ok(boot) => if !same_optional_text(boot, &record.boot_id) {
            Err(
                Failure::new(
                    "managed app-server process record belongs to another system boot",
                ),
            )
        } else {
            Ok(())
        },
    }
}

/// Whether a record is of the selected target.
pub open spec fn is_target(
    record: RecordView,
    record_home: Seq<char>,
    home: Seq<char>,
    endpoint: Seq<char>,
) -> bool {
    is_same_path(record_home, home) && record.endpoint == endpoint
}

/// Whether a record is of the selected target, given the two homes as the file system knows
/// them.
pub fn record_matches_target(
    record: &ProcessRecord,
    record_home: &str,
    home: &str,
    endpoint: &str,
) -> (matches: bool)
    ensures
        matches == is_target(record@, record_home@, home@, endpoint@),
{
    same_path(record_home, home) && same_text(record.endpoint.as_str(), endpoint)
}

/// The report about an app-server that this client did not start.
pub open spec fn external_report(endpoint: Seq<char>, codex_home: Seq<char>) -> ReportView {
    ReportView {
        status: "reused"@,
        backend: "external"@,
        endpoint,
        codex_home,
        codex_bin: None,
        codex_version: None,
        pid: None,
    }
}

/// The report about a recorded app-server.
pub open spec fn recorded_report(
    status: Seq<char>,
    endpoint: Seq<char>,
    codex_home: Seq<char>,
    record: RecordView,
) -> ReportView {
    ReportView {
        status,
        backend: "codex-tamer"@,
        endpoint,
        codex_home,
        codex_bin: Some(record.codex_bin),
        codex_version: Some(record.codex_version),
        pid: Some(record.pid),
    }
}

pub(crate) fn report_of_record(
    status: &str,
    endpoint: &str,
    codex_home: &str,
    record: &ProcessRecord,
) -> (report: ManagedServerReport)
    ensures
        report@ == recorded_report(status@, endpoint@, codex_home@, record@),
{
    ManagedServerReport {
        status: status.to_owned(),
        backend: "codex-tamer".to_owned(),
        endpoint: endpoint.to_owned(),
        codex_home: codex_home.to_owned(),
        codex_bin: Some(record.codex_bin.clone()),
        codex_version: Some(record.codex_version.clone()),
        pid: Some(record.pid),
    }
}

/// What is known of the process at the other end of a connection.
#[derive(Debug)]
pub struct PeerFacts {
    pub peer: Option<PeerIdentity>,
    pub expected_uid: u32,
    pub peer_group: Result<u32, Failure>,
    pub boot_id: Result<Option<String>, Failure>,
}

impl PeerFacts {
    pub open spec fn fault(self, record: RecordView) -> Option<Seq<Seq<char>>> {
        peer_fault(
            self.peer,
            self.expected_uid,
            record,
            plain_result(self.peer_group),
            boot_result(self.boot_id),
        )
    }

    pub fn owns(&self, record: &ProcessRecord) -> (owns: Result<(), Failure>)
        ensures
            match owns {
                Ok(()) => self.fault(record@) is None,
                Err(failure) => self.fault(record@) == Some(failure@),
            },
    {
        validate_peer_identity(
            self.peer,
            self.expected_uid,
            record,
            &self.peer_group,
            &self.boot_id,
        )
    }
}

/// The report about a listener that was found running: the recorded app-server, where the
/// record is of this target, and otherwise somebody else's. A record of this target that the
/// listener does not answer to is a failure.
pub fn reused_report(
    endpoint: &str,
    home: &Home,
    record: Option<&ProcessRecord>,
    record_home: &str,
    peer: &PeerFacts,
) -> (report: Result<ManagedServerReport, Failure>)
    ensures
        match (report, record) {
            (Ok(report), Some(record)) => if is_target(
                record@,
                record_home@,
                home.normalized@,
                endpoint@,
            ) {
                peer.fault(record@) is None && report@ == recorded_report(
                    "reused"@,
                    endpoint@,
                    home.path@,
                    record@,
                )
            } else {
                report@ == external_report(endpoint@, home.path@)
            },
            (Ok(report), None) => report@ == external_report(endpoint@, home.path@),
            (Err(failure), Some(record)) => {
                &&& is_target(record@, record_home@, home.normalized@, endpoint@)
                &&& peer.fault(record@) == Some(failure@)
            },
            (Err(_), None) => false,
        },
{
    if let Some(record) = record {
        if record_matches_target(record, record_home, home.normalized.as_str(), endpoint) {
            return match peer.owns(record) {
                Ok(()) => Ok(report_of_record("reused", endpoint, home.path.as_str(), record)),
                Err(failure) => Err(failure),
            };
        }
    }
    Ok(
        ManagedServerReport {
            status: "reused".to_owned(),
            backend: "external".to_owned(),
            endpoint: endpoint.to_owned(),
            codex_home: home.path.clone(),
            codex_bin: None,
            codex_version: None,
            pid: None,
        },
    )
}

/// Whether a recorded group may be signalled: where its leader still exists, it must be in
/// the recorded group.
pub fn check_signal_target(
    record: &ProcessRecord,
    process_exists: Result<bool, Failure>,
    process_group: Result<u32, Failure>,
) -> (allowed: Result<(), Failure>)
    ensures
        match (plain_result(process_exists), plain_result(process_group)) {
            (Err(cause), _) => allowed matches Err(failure) && failure@ == cause,
            (Ok(false), _) => allowed is Ok,
            (Ok(true), Err(cause)) => allowed matches Err(failure) && failure@ == cause,
            (Ok(true), Ok(group)) => if group == record.process_group_id {
                allowed is Ok
            } else {
                allowed matches Err(failure) && failure@ == seq![
                    "managed app-server pid "@ + decimal(record.pid as int)
                        + " belongs to unexpected process group "@ + decimal(group as int),
                ]
            },
        },
{
    let exists = match process_exists {
        Ok(exists) => exists,
        Err(failure) => {
            return Err(failure);
        },
    };
    if !exists {
        return Ok(());
    }
    let group = match process_group {
        Ok(group) => group,
        Err(failure) => {
            return Err(failure);
        },
    };
    if group != record.process_group_id {
        let pid = decimal_text(record.pid as i64);
        let actual = decimal_text(group as i64);
        let mut message = concat3(
            "managed app-server pid ",
            pid.as_str(),
            " belongs to unexpected process group ",
        );
        message.append(actual.as_str());
        return Err(Failure::of(message));
    }
    Ok(())
}

/// How long is left until a deadline, or what the operation that it bounds fails with.
pub fn remaining_before_deadline(deadline: u64, now: u64, operation: &str) -> (remaining: Result<
    u64,
    Failure,
>)
    ensures
        match remaining {
            Ok(left) => now < deadline && left == deadline - now,
            Err(failure) => deadline <= now && failure@ == seq![
                "timed out during "@ + operation@,
            ],
        },
{
    if deadline <= now {
        return Err(deadline_failure(operation));
    }
    Ok(deadline - now)
}

/// What an operation that its deadline cut off fails with.
pub fn deadline_failure(operation: &str) -> (failure: Failure)
    ensures
        failure@ == seq!["timed out during "@ + operation@],
{
    let mut message = "timed out during ".to_owned();
    message.append(operation);
    Failure::of(message)
}

/// Whether there is a managed listener to use, given how the handshake with it went. One that
/// accepts connections and fails the handshake is an error where `reject` says so, and
/// otherwise counts as none.
pub fn connect_existing(
    reject: bool,
    was_reachable: bool,
    handshake: Result<(), Failure>,
    is_reachable: bool,
    valid: Result<(), Failure>,
) -> (existing: Result<bool, Failure>)
    ensures
        match (handshake, valid) {
            (Ok(()), Ok(())) => existing == Ok::<bool, Failure>(true),
            (Ok(()), Err(cause)) => existing matches Err(failure) && failure@ == cause@,
            (Err(cause), _) => if was_reachable || (reject && is_reachable) {
                existing matches Err(failure) && failure@ == seq![
                    "managed app-server endpoint is reachable but its handshake failed"@,
                ] + cause@
            } else {
                existing == Ok::<bool, Failure>(false)
            },
        },
{
    match handshake {
        Ok(()) => match valid {
            Ok(()) => Ok(true),
            Err(failure) => Err(failure),
        },
        Err(cause) => if was_reachable || (reject && is_reachable) {
            Err(
                cause.context("managed app-server endpoint is reachable but its handshake failed"),
            )
        } else {
            Ok(false)
        },
    }
}

/// Whether the managed app-server runs, given how a connection to it went: a listener that
/// accepts connections but is not it is an error.
pub fn probe_optional(connection: Result<(), Failure>, is_reachable: bool) -> (running: Result<
    bool,
    Failure,
>)
    ensures
        match connection {
            Ok(()) => running == Ok::<bool, Failure>(true),
            Err(cause) => if is_reachable {
                running matches Err(failure) && failure@ == cause@
            } else {
                running == Ok::<bool, Failure>(false)
            },
        },
{
    match connection {
        Ok(()) => Ok(true),
        Err(cause) => if is_reachable {
            Err(cause)
        } else {
            Ok(false)
        },
    }
}

/// What a probe of an app-server that does not run fails with.
pub fn probe(endpoint: &str) -> (failure: Failure)
    ensures
        failure@ == seq!["managed app-server at `"@ + endpoint@ + "` is not running"@],
{
    Failure::of(concat3("managed app-server at `", endpoint, "` is not running"))
}

/// What to do about a server that is starting.
#[derive(Debug)]
pub enum ReadyStep {
    Ready,
    Retry,
    Fail(Failure),
}

/// A server is ready once a connection to it is valid and its peer is the recorded process;
/// until the deadline anything else is tried again.
pub fn wait_for_server(
    connection: Result<(), Failure>,
    ownership: Result<(), Failure>,
    now: u64,
    deadline: u64,
) -> (step: ReadyStep)
    ensures
        match (connection, ownership) {
            (Ok(()), Ok(())) => step is Ready,
            (Ok(()), Err(cause)) => if now >= deadline {
                step matches ReadyStep::Fail(failure) && failure@ == cause@
            } else {
                step is Retry
            },
            (Err(cause), _) => if now >= deadline {
                step matches ReadyStep::Fail(failure) && failure@ == cause@
            } else {
                step is Retry
            },
        },
{
    let failure = match connection {
        Ok(()) => match ownership {
            Ok(()) => {
                return ReadyStep::Ready;
            },
            Err(failure) => failure,
        },
        Err(failure) => failure,
    };
    if now >= deadline {
        ReadyStep::Fail(failure)
    } else {
        ReadyStep::Retry
    }
}

} // verus!
