use vstd::prelude::*;
use vstd::utf8::*;

use crate::codex_runtime::{
    check_fault, is_first_usable, path_candidates, resolved_binary, standalone_codex_path,
    version_fault, Candidate, FileState,
};
use crate::config::{config_path, endpoint_text, Endpoint};
use crate::managed_server::{
    external_report, identity_fault, is_target, leader_is_active, peer_fault, record_is_active,
    recorded_report, start_time_of_ps, start_time_of_stat, tail_of_log, user_agent_fault, FactsView,
    Home, RecordView,
};
use crate::paths::is_same_path;
use crate::rpc::{InitializeInfo, PeerIdentity};
use crate::text::digits;
use crate::windows_paths::is_verbatim;
use crate::words::{is_last_place, parsed_u64, split_at_last, trimmed, words};

verus! {

/// A record of this version is active just where it is of the current boot, its group exists,
/// and its process, where that still exists, is in that group and started when the record says.
/// A record of another version is not judged at all.
pub proof fn law_active_record_is_of_a_running_group(record: RecordView, facts: FactsView)
    ensures
        record.schema_version != 1 ==> record_is_active(record, facts) is Err,
        record.schema_version == 1 && facts.boot_id is Ok && facts.group_exists is Ok
            && facts.process_exists is Ok && facts.process_group is Ok && facts.start_time is Ok
            ==> (record_is_active(record, facts) matches Ok(active) && (active <==> {
            &&& facts.boot_id->Ok_0 == record.boot_id
            &&& facts.group_exists->Ok_0
            &&& facts.process_exists->Ok_0 ==> {
                &&& facts.process_group->Ok_0 == record.process_group_id
                &&& facts.start_time->Ok_0 == record.process_start_time
            }
        })),
        record_is_active(record, facts) == Ok::<bool, Seq<Seq<char>>>(true) ==> {
            &&& facts.boot_id == Ok::<Option<Seq<char>>, Seq<Seq<char>>>(record.boot_id)
            &&& facts.group_exists == Ok::<bool, Seq<Seq<char>>>(true)
            &&& facts.process_exists == Ok::<bool, Seq<Seq<char>>>(true) ==> {
                &&& facts.process_group == Ok::<u32, Seq<Seq<char>>>(record.process_group_id)
                &&& facts.start_time == Ok::<Seq<char>, Seq<Seq<char>>>(record.process_start_time)
            }
        },
        record_is_active(record, facts) == Ok::<bool, Seq<Seq<char>>>(false) ==> {
            ||| facts.boot_id is Ok && facts.boot_id->Ok_0 != record.boot_id
            ||| facts.group_exists == Ok::<bool, Seq<Seq<char>>>(false)
            ||| facts.process_group is Ok && facts.process_group->Ok_0 != record.process_group_id
            ||| facts.start_time is Ok && facts.start_time->Ok_0 != record.process_start_time
        },
{
}

/// The leader of a recorded group proves it just where the record is of this version and of the
/// current boot, and the process exists, in that group, and started when the record says.
pub proof fn law_leader_proves_its_group(record: RecordView, facts: FactsView)
    ensures
        leader_is_active(record, facts) == Ok::<bool, Seq<Seq<char>>>(true) <==> {
            &&& record.schema_version == 1
            &&& facts.boot_id == Ok::<Option<Seq<char>>, Seq<Seq<char>>>(record.boot_id)
            &&& facts.process_exists == Ok::<bool, Seq<Seq<char>>>(true)
            &&& facts.process_group == Ok::<u32, Seq<Seq<char>>>(record.process_group_id)
            &&& facts.start_time == Ok::<Seq<char>, Seq<Seq<char>>>(record.process_start_time)
        },
{
}

/// A peer is the recorded app-server just where it is known, is this user's, has a process in
/// the recorded group, and the record is of the current boot.
pub proof fn law_owner_is_the_recorded_group(
    peer: Option<PeerIdentity>,
    expected_uid: u32,
    record: RecordView,
    peer_group: Result<u32, Seq<Seq<char>>>,
    boot_id: Result<Option<Seq<char>>, Seq<Seq<char>>>,
)
    ensures
        peer_fault(peer, expected_uid, record, peer_group, boot_id) is None <==> {
            &&& peer is Some
            &&& peer->0.uid == expected_uid
            &&& peer->0.pid is Some
            &&& peer_group == Ok::<u32, Seq<Seq<char>>>(record.process_group_id)
            &&& boot_id == Ok::<Option<Seq<char>>, Seq<Seq<char>>>(record.boot_id)
        },
{
}

/// What is before the last place of a character, that, and what is behind it make up the whole.
proof fn lemma_split_is_whole(text: Seq<char>, c: char, name: Seq<char>, version: Seq<char>)
    ensures
        split_at_last(text, c) == Some((name, version)) <==> text == name + seq![c] + version
            && !version.contains(c),
{
    if split_at_last(text, c) == Some((name, version)) {
        let i = choose|i: int| is_last_place(text, c, i);
        assert(text =~= name + seq![c] + version);
        if version.contains(c) {
            let k = choose|k: int| 0 <= k < version.len() && version[k] == c;
            assert(text[i + 1 + k] == c);
        }
    }
    if text == name + seq![c] + version && !version.contains(c) {
        let at = name.len() as int;
        assert forall|j: int| at < j < text.len() implies #[trigger] text[j] != c by {
            assert(text[j] == version[j - at - 1]);
        }
        assert(is_last_place(text, c, at));
        let i = choose|i: int| is_last_place(text, c, i);
        assert(i == at) by {
            if i < at {
                assert(text[at] != c);
            }
            if at < i {
                assert(text[i] != c);
            }
        }
        assert(text.take(at) =~= name);
        assert(text.skip(at + 1) =~= version);
    }
}

/// A server is of the supported release just where the first word of its user agent is
/// "codex-tamer/0.146.0". One of another version is refused by that version, whatever its
/// product is.
pub proof fn law_user_agent_names_the_supported_release(
    user_agent: Seq<char>,
    name: Seq<char>,
    version: Seq<char>,
)
    ensures
        user_agent_fault(user_agent) is None <==> words(user_agent).len() > 0 && words(
            user_agent,
        )[0] == "codex-tamer/0.146.0"@,
        words(user_agent).len() > 0 && words(user_agent)[0] == name + seq!['/'] + version
            && !version.contains('/') && version != "0.146.0"@ ==> user_agent_fault(user_agent)
            == Some(
            "app-server version `"@ + version
                + "` is incompatible; expected reviewed Codex 0.146.0"@,
        ),
{
    reveal_strlit("codex-tamer/0.146.0");
    reveal_strlit("codex-tamer");
    reveal_strlit("0.146.0");
    let own = "codex-tamer"@;
    let release = "0.146.0"@;
    assert("codex-tamer/0.146.0"@ =~= own + seq!['/'] + release);
    assert(!release.contains('/')) by {
        if release.contains('/') {
            let k = choose|k: int| 0 <= k < release.len() && release[k] == '/';
            assert(k == 0 || k == 1 || k == 2 || k == 3 || k == 4 || k == 5 || k == 6);
        }
    }
    if words(user_agent).len() > 0 {
        let first = words(user_agent)[0];
        lemma_split_is_whole(first, '/', own, release);
        lemma_split_is_whole(first, '/', name, version);
        if let Some((a, b)) = split_at_last(first, '/') {
            lemma_split_is_whole(first, '/', a, b);
        }
    }
}

/// A server can be the managed one just where it is of the supported release and works in the
/// selected home.
pub proof fn law_managed_server_works_in_the_selected_home(
    user_agent: Seq<char>,
    reported: Home,
    selected: Home,
)
    ensures
        identity_fault(user_agent, reported, selected) is None <==> user_agent_fault(
            user_agent,
        ) is None && is_same_path(reported.normalized@, selected.normalized@),
{
}

/// A record is of a target just where it is of the same home and the same endpoint.
pub proof fn law_target_is_home_and_endpoint(
    record: RecordView,
    record_home: Seq<char>,
    home: Seq<char>,
    endpoint: Seq<char>,
)
    ensures
        is_target(record, record_home, home, endpoint) <==> is_same_path(record_home, home)
            && record.endpoint == endpoint,
{
}

/// What is reported of a server: of a recorded one its binary, version and process, and of
/// another one that it is somebody else's.
pub proof fn law_reports_say_whose_the_server_is(
    status: Seq<char>,
    endpoint: Seq<char>,
    home: Seq<char>,
    record: RecordView,
)
    ensures
        ({
            let own = recorded_report(status, endpoint, home, record);
            &&& own.status == status
            &&& own.backend == "codex-tamer"@
            &&& own.endpoint == endpoint
            &&& own.codex_home == home
            &&& own.codex_bin == Some(record.codex_bin)
            &&& own.codex_version == Some(record.codex_version)
            &&& own.pid == Some(record.pid)
        }),
        ({
            let other = external_report(endpoint, home);
            &&& other.status == "reused"@
            &&& other.backend == "external"@
            &&& other.endpoint == endpoint
            &&& other.codex_home == home
            &&& other.codex_bin is None
            &&& other.codex_version is None
            &&& other.pid is None
        }),
{
}

/// The end of a log is all of it, or its last four kibibytes.
pub proof fn law_log_tail_is_the_end(bytes: Seq<u8>)
    ensures
        bytes.len() <= 4096 ==> tail_of_log(bytes) == bytes,
        bytes.len() > 4096 ==> tail_of_log(bytes).len() == 4096,
        forall|i: int|
            0 <= i < tail_of_log(bytes).len() ==> #[trigger] tail_of_log(bytes)[i]
                == bytes[bytes.len() - tail_of_log(bytes).len() + i],
{
}

/// The start time of a process is the twentieth word behind the last closing bracket of its status
/// line, where that is a number, and otherwise there is none.
pub proof fn law_start_time_is_the_twentieth_word(
    before: Seq<char>,
    rest: Seq<char>,
    path: Seq<char>,
    stat: Seq<char>,
)
    requires
        !rest.contains(')'),
    ensures
        ({
            let found = start_time_of_stat(before + seq![')'] + rest, path);
            let number = parsed_u64(words(rest)[19]);
            &&& words(rest).len() < 20 ==> found is Err
            &&& words(rest).len() >= 20 && number is None ==> found is Err
            &&& words(rest).len() >= 20 && number is Some ==> found == Ok::<
                Seq<char>,
                Seq<Seq<char>>,
            >("linux-procfs:"@ + digits(number->0 as nat))
        }),
        !stat.contains(')') ==> start_time_of_stat(stat, path) is Err,
{
    lemma_split_is_whole(before + seq![')'] + rest, ')', before, rest);
    if !stat.contains(')') {
        assert forall|i: int| !is_last_place(stat, ')', i) by {
            if 0 <= i < stat.len() && stat[i] == ')' {
                assert(stat.contains(')'));
            }
        }
    }
}

/// The start time that `ps` prints is what is left of its output without the white space around
/// it, where it succeeded and printed text that is not blank.
pub proof fn law_printed_start_time_is_trimmed(succeeded: bool, stdout: Seq<u8>, pid: u32)
    ensures
        ({
            let found = start_time_of_ps(succeeded, stdout, pid);
            let time = trimmed(decode_utf8(stdout));
            &&& succeeded && valid_utf8(stdout) && time.len() > 0 ==> found == Ok::<
                Seq<char>,
                Seq<Seq<char>>,
            >("ps-utc:"@ + time)
            &&& !(succeeded && valid_utf8(stdout) && time.len() > 0) ==> found is Err
        }),
{
}

/// A server has identified itself just where none of what it says of itself is blank.
pub proof fn law_identified_server_says_what_it_is(info: InitializeInfo)
    ensures
        info.identified() <==> trimmed(info.user_agent@).len() > 0 && trimmed(
            info.platform_family@,
        ).len() > 0 && trimmed(info.platform_os@).len() > 0,
        info.home_may_be_absolute(false) <==> info.codex_home@.len() > 0 && info.codex_home@[0]
            == '/',
{
}

/// The configuration is what the flag names, else what the environment names, else the file below
/// the home. A Unix endpoint is written with its scheme before the path.
pub proof fn law_configuration_is_looked_for_in_order(
    flag: Seq<char>,
    environment: Option<Seq<char>>,
    other: Seq<char>,
    home: Seq<char>,
    endpoint: Endpoint,
)
    ensures
        config_path(Some(flag), environment, home) == flag,
        config_path(None, Some(other), home) == other,
        home.len() > 0 && home.last() != '/' ==> config_path(None, None, home) == home
            + "/.config/codex-tamer/config.toml"@,
        match endpoint {
            Endpoint::Unix { path } => endpoint_text(endpoint) == "unix://"@ + path@,
            Endpoint::WebSocket { url, .. } => endpoint_text(endpoint) == url@,
        },
{
    reveal_strlit("/.config/codex-tamer/config.toml");
    reveal_strlit(".config/codex-tamer/config.toml");
    reveal_strlit("/");
    assert("/"@ + ".config/codex-tamer/config.toml"@ =~= "/.config/codex-tamer/config.toml"@);
    assert(home + "/"@ + ".config/codex-tamer/config.toml"@ =~= home
        + "/.config/codex-tamer/config.toml"@);
}

/// A version check is passed just where it printed the product, the supported version, and
/// nothing else.
pub proof fn law_version_check_asks_for_the_supported_release(
    codex_bin: Seq<char>,
    success: bool,
    status: Seq<char>,
    stdout: Seq<u8>,
    complaint: Seq<char>,
)
    ensures
        forall|text: Seq<char>| #[trigger]
            version_fault(text) is None <==> words(text).len() == 2 && words(text)[0]
                == "codex-cli"@ && words(text)[1] == "0.146.0"@,
        check_fault(codex_bin, success, status, stdout, complaint) is None <==> {
            &&& success
            &&& valid_utf8(stdout)
            &&& words(decode_utf8(stdout)).len() == 2
            &&& words(decode_utf8(stdout))[0] == "codex-cli"@
            &&& words(decode_utf8(stdout))[1] == "0.146.0"@
        },
{
}

/// Whether a candidate can be executed: it is a file, and where the platform has modes somebody
/// may execute it.
pub open spec fn is_usable(candidate: Candidate) -> bool {
    candidate.state matches FileState::Present { is_file, mode } && is_file && (mode is None
        || mode->0 & 0o111 != 0)
}

/// A configured binary is the one, where it can be executed, and otherwise there is none. Without
/// one it is the binary that Codex manages, where that is a file, and otherwise the first on the
/// search path that can be executed.
pub proof fn law_binary_is_chosen_in_order(
    explicit: Option<Candidate>,
    standalone: Candidate,
    on_path: Option<Seq<Candidate>>,
)
    ensures
        ({
            let chosen = resolved_binary(explicit, standalone, on_path);
            let managed = standalone.state matches FileState::Present { is_file: true, .. };
            &&& explicit matches Some(candidate) ==> {
                &&& is_usable(candidate) ==> chosen == Ok::<Seq<char>, Seq<char>>(candidate.path@)
                &&& !is_usable(candidate) ==> chosen is Err
            }
            &&& explicit is None && managed ==> {
                &&& is_usable(standalone) ==> chosen == Ok::<Seq<char>, Seq<char>>(
                    standalone.path@,
                )
                &&& !is_usable(standalone) ==> chosen is Err
            }
            &&& explicit is None && !managed && on_path is None ==> chosen is Err
            &&& explicit is None && !managed && on_path is Some ==> {
                let candidates = on_path->0;
                &&& (forall|i: int|
                    0 <= i < candidates.len() ==> !is_usable(#[trigger] candidates[i]))
                    ==> chosen is Err
                &&& forall|i: int|
                    0 <= i < candidates.len() && is_usable(#[trigger] candidates[i]) && (forall|
                        j: int,
                    |
                        0 <= j < i ==> !is_usable(#[trigger] candidates[j])) ==> chosen == Ok::<
                        Seq<char>,
                        Seq<char>,
                    >(candidates[i].path@)
            }
        }),
{
    if let Some(candidates) = on_path {
        assert forall|i: int|
            0 <= i < candidates.len() && is_usable(#[trigger] candidates[i]) && (forall|j: int|
                0 <= j < i ==> !is_usable(#[trigger] candidates[j])) implies is_first_usable(
            candidates,
            i,
        ) && (forall|k: int| is_first_usable(candidates, k) ==> k == i) by {
            assert forall|j: int| 0 <= j < i implies (#[trigger] candidates[j]).fault(
                "Codex binary on PATH"@,
            ) is Some by {
                assert(!is_usable(candidates[j]));
            }
            assert forall|k: int| is_first_usable(candidates, k) implies k == i by {
                if k < i {
                    assert(!is_usable(candidates[k]));
                }
                if i < k {
                    assert(candidates[i].fault("Codex binary on PATH"@) is Some);
                }
            }
        }
        if forall|i: int| 0 <= i < candidates.len() ==> !is_usable(#[trigger] candidates[i]) {
            assert forall|k: int| !is_first_usable(candidates, k) by {
                if 0 <= k < candidates.len() {
                    assert(!is_usable(candidates[k]));
                }
            }
        }
    }
}

/// The binary that Codex manages is looked for below the Codex home, at one place, under the name
/// that the platform gives to programs.
pub proof fn law_managed_binary_is_below_the_home(codex_home: &str, windows: bool, path: String)
    requires
        call_ensures(standalone_codex_path, (codex_home, windows), path),
        codex_home@.len() > 3,
        codex_home@.last() != '/',
        windows ==> codex_home@.last() != '\\' && !is_verbatim(codex_home@),
    ensures
        !windows ==> path@ == codex_home@ + "/packages/standalone/current/codex"@,
        windows ==> path@ == codex_home@ + r"\packages/standalone/current\codex.exe"@,
{
    let home = codex_home@;
    reveal_strlit("/");
    reveal_strlit(r"\");
    reveal_strlit("codex");
    reveal_strlit("codex.exe");
    reveal_strlit("packages/standalone/current");
    reveal_strlit("/packages/standalone/current/codex");
    reveal_strlit(r"\packages/standalone/current\codex.exe");
    reveal_strlit(r"\\?\");
    let below = "packages/standalone/current"@;
    if windows {
        let directory = home + r"\"@ + below;
        assert(directory.last() == 't');
        assert(!is_verbatim(directory)) by {
            if is_verbatim(directory) {
                assert forall|i: int| 0 <= i < 4 implies r"\\?\"@[i] == #[trigger] directory[i] by {}
                assert forall|i: int| 0 <= i < 4 implies r"\\?\"@[i] == #[trigger] home[i] by {
                    assert(directory[i] == home[i]);
                }
                assert(r"\\?\"@ =~= home.subrange(0, 4));
            }
        }
        assert(path@ =~= home + r"\packages/standalone/current\codex.exe"@);
    } else {
        assert((home + "/"@ + below).last() == 't');
        assert(path@ =~= home + "/packages/standalone/current/codex"@);
    }
}

/// On the search path, each directory gives one candidate, in the order of the directories: the
/// program of the platform's name in it.
pub proof fn law_each_directory_gives_a_candidate(
    directories: Vec<String>,
    windows: bool,
    candidates: Vec<String>,
    i: int,
)
    requires
        call_ensures(path_candidates, (&directories, windows), candidates),
        0 <= i < directories@.len(),
        directories@[i]@.len() > 2,
        directories@[i]@.last() != '/',
        windows ==> directories@[i]@.last() != '\\' && !is_verbatim(directories@[i]@),
    ensures
        candidates@.len() == directories@.len(),
        !windows ==> candidates@[i]@ == directories@[i]@ + "/codex"@,
        windows ==> candidates@[i]@ == directories@[i]@ + r"\codex.exe"@,
{
    let directory = directories@[i]@;
    reveal_strlit("/");
    reveal_strlit(r"\");
    reveal_strlit("codex");
    reveal_strlit("codex.exe");
    reveal_strlit("/codex");
    reveal_strlit(r"\codex.exe");
    if windows {
        assert(candidates@[i]@ =~= directory + r"\codex.exe"@);
    } else {
        assert(candidates@[i]@ =~= directory + "/codex"@);
    }
}

} // verus!
