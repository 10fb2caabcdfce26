use vstd::prelude::*;
use vstd::utf8::*;

use crate::codex_runtime::{
    resolve_codex_runtime, version_wait_step, CodexRuntime, VersionOutput, VersionWait,
};
use crate::config::{validate_managed_socket_path, Target};
use crate::errors::{AppServerError, Failure};
use crate::json::{lemma_get_with, Json, JsonView};
use crate::managed_laws::law_user_agent_names_the_supported_release;
use crate::managed_server::{
    acquire_start_lock, check_private_directory, check_private_file, check_signal_target,
    connect_existing, exists_by_signal, probe_optional, raw_process_id, read_active_process_record,
    read_process_group, record_is_active, remaining_before_deadline, reused_report,
    signal_process_group, validate_managed_connection, wait_for_server, Home, LockAttempt, LockStep,
    ManagedServerReport, PeerFacts, ProcessFacts, ProcessRecord, ReadyStep, RecordStep,
    SignalOutcome,
};
use crate::paths::is_same_path;
use crate::protocol_words::lemma_words;
use crate::rpc::{
    authorization_value, peer_identity_from, InitializeInfo, PeerIdentity, RequestError,
};
use crate::turns::attach::remaining_wait;
use crate::turns::requests::interrupt_turn;
use crate::turns::search::TurnSearch;
use crate::words::{trimmed, words};

verus! {

/// A runtime directory is private just where it is a directory of this user's that only this user
/// may use, in every way.
pub proof fn law_private_directory_is_for_its_owner_alone(
    path: &str,
    is_directory: bool,
    uid: u32,
    mode: u32,
    expected_uid: u32,
    answer: Result<(), Failure>,
)
    requires
        call_ensures(
            check_private_directory,
            (path, is_directory, uid, mode, expected_uid),
            answer,
        ),
    ensures
        answer is Ok <==> is_directory && uid == expected_uid && mode % 512 == 448,
{
    assert(mode & 0o777 == mode % 512) by (bit_vector);
}

/// A runtime file is private just where it is a file of this user's that nobody else may use in
/// any way.
pub proof fn law_private_file_is_for_its_owner_alone(
    path: &str,
    is_file: bool,
    uid: u32,
    mode: u32,
    expected_uid: u32,
    answer: Result<(), Failure>,
)
    requires
        call_ensures(check_private_file, (path, is_file, uid, mode, expected_uid), answer),
    ensures
        answer is Ok <==> is_file && uid == expected_uid && mode % 64 == 0,
{
    assert(mode & 0o077 == mode % 64) by (bit_vector);
}

/// A lock that another process holds is tried for until the deadline, and no longer; a lock that
/// was acquired is held, and one that failed is not tried for again.
pub proof fn law_lock_is_tried_for_until_the_deadline(
    attempt: LockAttempt,
    now: u64,
    deadline: u64,
    step: LockStep,
)
    requires
        call_ensures(acquire_start_lock, (attempt, now, deadline), step),
    ensures
        step is Acquired <==> attempt is Acquired,
        step is Retry <==> attempt is Busy && now < deadline,
{
}

/// A process exists unless the system says that there is none; it is not known only where the
/// system could not say.
pub proof fn law_process_exists_unless_there_is_none(
    outcome: SignalOutcome,
    subject: &str,
    answer: Result<bool, Failure>,
)
    requires
        call_ensures(exists_by_signal, (outcome, subject), answer),
    ensures
        answer is Err <==> outcome is Failed,
        answer == Ok::<bool, Failure>(false) <==> outcome is NoSuchProcess,
{
}

/// A group was signalled where the signal was delivered, or where there was nothing to signal.
pub proof fn law_group_is_signalled_or_gone(
    outcome: SignalOutcome,
    process_group: u32,
    answer: Result<(), Failure>,
)
    requires
        call_ensures(signal_process_group, (outcome, process_group), answer),
    ensures
        answer is Ok <==> outcome is Delivered || outcome is NoSuchProcess,
{
}

/// Ids are handed to the system as they are, and taken from it as they are; one that the other
/// side has no number for is refused.
pub proof fn law_ids_are_passed_on_unchanged(
    id: u32,
    subject: &str,
    raw: Result<i32, Failure>,
    answer: Result<i32, Failure>,
    group: Result<u32, Failure>,
    gid: u32,
    identity: Result<PeerIdentity, Failure>,
)
    requires
        call_ensures(raw_process_id, (id, subject), raw),
        call_ensures(read_process_group, (id, answer), group),
        call_ensures(peer_identity_from, (None::<i32>, id, gid), identity),
    ensures
        raw is Ok <==> id < 0x8000_0000,
        raw matches Ok(n) ==> n == id,
        group is Ok <==> answer is Ok && answer->Ok_0 >= 0,
        group matches Ok(n) ==> n == answer->Ok_0,
        identity matches Ok(peer) && peer.pid is None && peer.uid == id && peer.gid == gid,
{
}

/// A peer's process is what the system says, and is refused where that is no id.
pub proof fn law_peer_is_what_the_system_says(
    pid: i32,
    uid: u32,
    gid: u32,
    identity: Result<PeerIdentity, Failure>,
)
    requires
        call_ensures(peer_identity_from, (Some(pid), uid, gid), identity),
    ensures
        identity is Ok <==> pid >= 0,
        identity matches Ok(peer) ==> peer.uid == uid && peer.gid == gid && peer.pid is Some
            && peer.pid->0 == pid,
{
}

/// A record that is active is handed on as it was read, one that is not is stale, and one that
/// cannot be judged is neither.
pub proof fn law_judged_record_is_handed_on(
    record: ProcessRecord,
    facts: &ProcessFacts,
    step: Result<RecordStep, Failure>,
)
    requires
        call_ensures(read_active_process_record, (record, facts), step),
    ensures
        record_is_active(record@, facts@) == Ok::<bool, Seq<Seq<char>>>(true) <==> (step matches Ok(
            RecordStep::Active(active),
        ) && active == record),
        record_is_active(record@, facts@) == Ok::<bool, Seq<Seq<char>>>(false) <==> (step matches Ok(
            RecordStep::Stale,
        )),
        record_is_active(record@, facts@) is Err <==> step is Err,
{
}

/// A connection is one to the managed app-server just where its peer is known and this user's, the
/// server is of the supported release, and it works in the selected home.
pub proof fn law_managed_connection_is_this_users(
    peer: Option<PeerIdentity>,
    expected_uid: u32,
    info: &InitializeInfo,
    reported: &Home,
    selected: &Home,
    answer: Result<(), Failure>,
)
    requires
        call_ensures(
            validate_managed_connection,
            (peer, expected_uid, info, reported, selected),
            answer,
        ),
    ensures
        answer is Ok <==> {
            &&& peer is Some
            &&& peer->0.uid == expected_uid
            &&& words(info.user_agent@).len() > 0
            &&& words(info.user_agent@)[0] == "codex-tamer/0.146.0"@
            &&& is_same_path(reported.normalized@, selected.normalized@)
        },
{
    law_user_agent_names_the_supported_release(info.user_agent@, Seq::empty(), Seq::empty());
}

/// What is reported of a listener that was found: it is the recorded app-server where the record
/// is of this home and endpoint, and then its peer must be that very process; without such a
/// record it is somebody else's.
pub proof fn law_found_listener_is_reported_by_its_owner(
    endpoint: &str,
    home: &Home,
    record: Option<&ProcessRecord>,
    record_home: &str,
    peer: &PeerFacts,
    report: Result<ManagedServerReport, Failure>,
)
    requires
        call_ensures(reused_report, (endpoint, home, record, record_home, peer), report),
    ensures
        ({
            let own = record is Some && is_same_path(record_home@, home.normalized@)
                && record->0.endpoint@ == endpoint@;
            &&& !own ==> (report matches Ok(told) && told.backend@ == "external"@ && told.status@
                == "reused"@ && told.pid is None && told.endpoint@ == endpoint@ && told.codex_home@
                == home.path@)
            &&& own ==> (report is Ok <==> peer.fault(record->0@) is None)
            &&& own && report is Ok ==> {
                let told = report->Ok_0;
                &&& told.backend@ == "codex-tamer"@
                &&& told.status@ == "reused"@
                &&& told.pid == Some(record->0.pid)
                &&& told.endpoint@ == endpoint@
                &&& told.codex_home@ == home.path@
                &&& told.codex_bin matches Some(bin) && bin@ == record->0.codex_bin@
                &&& told.codex_version matches Some(version) && version@
                    == record->0.codex_version@
            }
        }),
{
}

/// A recorded group may be signalled where its leader is gone, or is in that group still.
pub proof fn law_signal_goes_to_the_recorded_group(
    record: &ProcessRecord,
    process_exists: Result<bool, Failure>,
    process_group: Result<u32, Failure>,
    allowed: Result<(), Failure>,
)
    requires
        call_ensures(check_signal_target, (record, process_exists, process_group), allowed),
    ensures
        allowed is Ok <==> process_exists is Ok && (process_exists->Ok_0 ==> process_group is Ok
            && process_group->Ok_0 == record.process_group_id),
{
}

/// Time is left just where the deadline is not reached, and it is what is missing to it.
pub proof fn law_time_is_left_until_the_deadline(
    deadline: u64,
    now: u64,
    operation: &str,
    left: Result<u64, Failure>,
    wait_left: Result<u64, AppServerError>,
)
    requires
        call_ensures(remaining_before_deadline, (deadline, now, operation), left),
        call_ensures(remaining_wait, (deadline, now, operation), wait_left),
    ensures
        left is Ok <==> now < deadline,
        left matches Ok(n) ==> now + n == deadline,
        wait_left is Ok <==> now < deadline,
        wait_left matches Ok(n) ==> now + n == deadline,
{
}

/// There is a listener to use just where the handshake with it went well and it is the managed
/// one. One that is not the managed one is refused. One that fails the handshake is refused just
/// where that is asked for and it is known to accept connections, and otherwise counts as none.
pub proof fn law_existing_listener_is_used_or_refused(
    reject: bool,
    was_reachable: bool,
    handshake: Result<(), Failure>,
    is_reachable: bool,
    valid: Result<(), Failure>,
    existing: Result<bool, Failure>,
)
    requires
        call_ensures(
            connect_existing,
            (reject, was_reachable, handshake, is_reachable, valid),
            existing,
        ),
    ensures
        existing == Ok::<bool, Failure>(true) <==> handshake is Ok && valid is Ok,
        existing == Ok::<bool, Failure>(false) <==> handshake is Err && !was_reachable && !(reject
            && is_reachable),
{
}

/// The managed app-server runs just where a connection to it is valid. A listener that accepts
/// connections but is not it is an error, and only where nothing accepts one does it not run.
pub proof fn law_probe_tells_a_stopped_server_from_another(
    connection: Result<(), Failure>,
    is_reachable: bool,
    running: Result<bool, Failure>,
)
    requires
        call_ensures(probe_optional, (connection, is_reachable), running),
    ensures
        running == Ok::<bool, Failure>(true) <==> connection is Ok,
        running == Ok::<bool, Failure>(false) <==> connection is Err && !is_reachable,
        running matches Err(failure) ==> connection matches Err(cause) && failure@ == cause@,
{
}

/// A server that is starting is ready just where a connection to it is valid and its peer is the
/// recorded process; anything else is tried again until the deadline.
pub proof fn law_server_is_ready_once_it_is_the_recorded_one(
    connection: Result<(), Failure>,
    ownership: Result<(), Failure>,
    now: u64,
    deadline: u64,
    step: ReadyStep,
)
    requires
        call_ensures(wait_for_server, (connection, ownership, now, deadline), step),
    ensures
        step is Ready <==> connection is Ok && ownership is Ok,
        step is Retry <==> !(connection is Ok && ownership is Ok) && now < deadline,
        step matches ReadyStep::Fail(failure) ==> failure@ == if connection is Err {
            connection->Err_0@
        } else {
            ownership->Err_0@
        },
{
}

/// A version check is done once it has ended, and has timed out where it has not by the deadline;
/// otherwise it is looked at again within ten milliseconds, and not after the deadline.
pub proof fn law_version_check_is_bounded(exited: bool, now: u64, deadline: u64, step: VersionWait)
    requires
        call_ensures(version_wait_step, (exited, now, deadline), step),
    ensures
        step == VersionWait::Done <==> exited,
        step == VersionWait::TimedOut <==> !exited && now >= deadline,
        step matches VersionWait::Sleep(nanos) ==> {
            &&& 0 < nanos <= 10_000_000
            &&& now + nanos <= deadline
            &&& nanos == 10_000_000 || now + nanos == deadline
        },
{
}

/// The runtime that a version check vouches for is the binary that was checked, with the home that
/// was selected, and of the supported release.
pub proof fn law_runtime_is_the_checked_binary(
    codex_bin: String,
    codex_home: String,
    output: VersionOutput,
    normalized_bin: &str,
    normalized_standalone: &str,
    runtime: Result<CodexRuntime, Failure>,
)
    requires
        call_ensures(
            resolve_codex_runtime,
            (codex_bin, codex_home, output, normalized_bin, normalized_standalone),
            runtime,
        ),
    ensures
        runtime is Ok <==> {
            &&& output.success
            &&& valid_utf8(output.stdout@)
            &&& words(decode_utf8(output.stdout@)).len() == 2
            &&& words(decode_utf8(output.stdout@))[0] == "codex-cli"@
            &&& words(decode_utf8(output.stdout@))[1] == "0.146.0"@
        },
        runtime matches Ok(found) ==> {
            &&& found.codex_bin@ == codex_bin@
            &&& found.codex_home@ == codex_home@
            &&& found.version@ == "0.146.0"@
            &&& found.standalone_managed <==> is_same_path(normalized_bin@, normalized_standalone@)
        },
{
}

/// An interrupt is accepted just where the answer is an object; the report names what was
/// interrupted.
pub proof fn law_interrupt_is_accepted_by_an_object(
    target: &Target,
    thread_id: &str,
    turn_id: &str,
    result: &Json,
    report: Result<Json, AppServerError>,
)
    requires
        call_ensures(interrupt_turn, (target, thread_id, turn_id, result), report),
    ensures
        report is Ok <==> result@ is Object,
        report matches Ok(told) ==> {
            &&& told@.field("server"@) == JsonView::Str(target.server@)
            &&& told@.field("threadId"@) == JsonView::Str(thread_id@)
            &&& told@.field("turnId"@) == JsonView::Str(turn_id@)
            &&& told@.field("status"@) == JsonView::Str("accepted"@)
        },
{
    broadcast use lemma_get_with;

    lemma_words();
}

/// What a server says of itself is accepted, unchanged, just where none of it is blank and its
/// home is absolute; off Windows that is where the home starts with the root.
pub proof fn law_server_is_accepted_with_an_absolute_home(
    info: InitializeInfo,
    absolute: bool,
    accepted: Result<InitializeInfo, RequestError>,
    validated: Result<InitializeInfo, RequestError>,
)
    requires
        call_ensures(InitializeInfo::accept, (info, absolute), accepted),
        call_ensures(InitializeInfo::validate, (info, false), validated),
    ensures
        ({
            let told = trimmed(info.user_agent@).len() > 0 && trimmed(info.platform_family@).len()
                > 0 && trimmed(info.platform_os@).len() > 0;
            &&& accepted is Ok <==> told && absolute
            &&& validated is Ok <==> told && info.codex_home@.len() > 0 && info.codex_home@[0]
                == '/'
            &&& accepted is Ok ==> accepted->Ok_0 == info
            &&& validated is Ok ==> validated->Ok_0 == info
        }),
{
}

/// A search asks for another page just where it may look at more turns.
pub proof fn law_search_asks_while_turns_are_left(search: &TurnSearch, params: Option<Json>)
    requires
        search.wf(),
        call_ensures(TurnSearch::next_page, (search,), params),
    ensures
        params is None <==> search.scanned == search.max_turns,
{
}

/// A socket path is accepted just where it has at most a hundred and three bytes; a token is sent
/// as it is, behind its scheme.
pub proof fn law_socket_paths_are_short_and_tokens_whole(
    path: &str,
    valid: Result<(), String>,
    token: &str,
    value: String,
)
    requires
        call_ensures(validate_managed_socket_path, (path,), valid),
        call_ensures(authorization_value, (token,), value),
    ensures
        valid is Ok <==> encode_utf8(path@).len() < 104,
        value@ == "Bearer "@ + token@,
{
}

} // verus!
