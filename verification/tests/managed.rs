use codex_tamer::codex_runtime::{
    codex_executable_name, ensure_executable, judge_version, parse_supported_codex_version,
    path_candidates, resolve_codex_binary_from, resolve_codex_runtime, standalone_codex_path,
    version_wait_step, Candidate, FileState, VersionOutput, VersionWait, SUPPORTED_CODEX_VERSION,
};
use codex_tamer::config::Endpoint;
use codex_tamer::errors::Failure;
use codex_tamer::json::{Json, Member};
use codex_tamer::lifecycle::{StartAction, StartEvent, StartMachine, StartPhase};
use codex_tamer::managed_server::{
    acquire_start_lock, check_private_directory, check_private_file, check_record_shape,
    check_signal_target, connect_existing, current_boot_id, deadline_failure,
    exists_by_signal, leader_matches_record, probe, probe_optional, process_matches_record,
    process_start_time_from_ps, process_start_time_from_stat, raw_process_id,
    read_active_process_record, read_log_tail, read_process_group, remaining_before_deadline,
    reused_report,
    server_version_from_user_agent, signal_process_group, validate_managed_connection,
    validate_managed_identity, validate_managed_peer_uid, validate_peer_identity, wait_for_server,
    Home, LockAttempt, LockStep, ManagedPaths, PeerFacts, ProcessFacts, ProcessRecord, ReadyStep,
    RecordStep, SignalOutcome, LOG_TAIL_BYTES, PROCESS_RECORD_SCHEMA_VERSION,
};
use codex_tamer::parse::parse_json;
use codex_tamer::records::{decode_record, encode_record, read_record};
use codex_tamer::rpc::{peer_identity_from, InitializeInfo, PeerIdentity};
use codex_tamer::shutdown::{StopAction, StopEvent, StopMachine, StopPhase};

const UID: u32 = 1000;

fn failure(message: &str) -> Failure {
    Failure::new(message)
}

fn info(home: &str, user_agent: &str) -> InitializeInfo {
    InitializeInfo {
        user_agent: user_agent.to_string(),
        codex_home: home.to_string(),
        platform_family: "unix".to_string(),
        platform_os: "linux".to_string(),
    }
}

fn home(path: &str) -> Home {
    Home {
        path: path.to_string(),
        normalized: path.to_string(),
    }
}

fn record() -> ProcessRecord {
    ProcessRecord {
        schema_version: PROCESS_RECORD_SCHEMA_VERSION,
        pid: 42,
        process_group_id: 42,
        process_start_time: "linux-procfs:77".to_string(),
        boot_id: Some("boot-a".to_string()),
        codex_bin: "/opt/codex".to_string(),
        codex_version: SUPPORTED_CODEX_VERSION.to_string(),
        codex_home: "/tmp/codex-home".to_string(),
        endpoint: "unix:///tmp/codex.sock".to_string(),
    }
}

fn facts() -> ProcessFacts {
    ProcessFacts {
        boot_id: Ok(Some("boot-a".to_string())),
        group_exists: Ok(true),
        process_exists: Ok(true),
        process_group: Ok(42),
        start_time: Ok("linux-procfs:77".to_string()),
    }
}

fn peer(pid: Option<u32>, uid: u32) -> PeerIdentity {
    PeerIdentity { pid, uid, gid: 1000 }
}

fn peer_facts() -> PeerFacts {
    PeerFacts {
        peer: Some(peer(Some(43), UID)),
        expected_uid: UID,
        peer_group: Ok(42),
        boot_id: Ok(Some("boot-a".to_string())),
    }
}

fn candidate(path: &str, is_file: bool, mode: u32) -> Candidate {
    Candidate {
        path: path.to_string(),
        state: FileState::Present {
            is_file,
            mode: Some(mode),
        },
    }
}

fn missing(path: &str) -> Candidate {
    Candidate {
        path: path.to_string(),
        state: FileState::Unavailable {
            error: "No such file or directory (os error 2)".to_string(),
        },
    }
}

#[test]
fn version_parser_accepts_only_the_reviewed_release() {
    assert_eq!(
        parse_supported_codex_version("codex-cli 0.146.0\n").unwrap(),
        SUPPORTED_CODEX_VERSION
    );
    let error = parse_supported_codex_version("codex-cli 0.147.0\n").unwrap_err();
    assert!(error.render().contains("0.147.0"));
    assert!(error.render().contains(SUPPORTED_CODEX_VERSION));
}

#[test]
fn version_parser_rejects_output_of_another_shape() {
    for output in ["", "codex-cli", "codex 0.146.0", "codex-cli 0.146.0 extra"] {
        assert_eq!(
            parse_supported_codex_version(output).unwrap_err().render(),
            format!("unexpected `codex --version` output: `{output}`")
        );
    }
    assert_eq!(
        parse_supported_codex_version(" \u{3000}codex-cli\u{a0}0.146.0\u{85}").unwrap(),
        "0.146.0"
    );
}

#[test]
fn explicit_codex_binary_wins_without_silent_fallback() {
    let standalone = candidate("/home/packages/standalone/current/codex", true, 0o755);
    let on_path = vec![candidate("/usr/bin/codex", true, 0o755)];
    let explicit = candidate("/opt/codex", true, 0o755);
    assert_eq!(
        resolve_codex_binary_from(Some(&explicit), &standalone, Some(&on_path)).unwrap(),
        "/opt/codex"
    );
    let explicit = missing("/opt/missing");
    assert_eq!(
        resolve_codex_binary_from(Some(&explicit), &standalone, Some(&on_path))
            .unwrap_err()
            .render(),
        "configured Codex binary `/opt/missing` is unavailable: No such file or directory (os error 2)"
    );
}

#[test]
fn standalone_codex_wins_before_path() {
    let on_path = vec![candidate("/usr/bin/codex", true, 0o755)];
    let standalone = candidate(&standalone_codex_path("/home", false), true, 0o700);
    assert_eq!(
        resolve_codex_binary_from(None, &standalone, Some(&on_path)).unwrap(),
        "/home/packages/standalone/current/codex"
    );
    let standalone = candidate("/home/packages/standalone/current/codex", true, 0o644);
    assert_eq!(
        resolve_codex_binary_from(None, &standalone, Some(&on_path))
            .unwrap_err()
            .render(),
        "standalone Codex binary `/home/packages/standalone/current/codex` is not executable"
    );
}

#[test]
fn path_codex_is_the_final_fallback() {
    let directories = vec!["/a".to_string(), "/b/".to_string(), "/c".to_string()];
    let paths = path_candidates(&directories, false);
    assert_eq!(paths, vec!["/a/codex", "/b/codex", "/c/codex"]);
    let on_path = vec![
        candidate("/a/codex", true, 0o600),
        candidate("/b/codex", false, 0o755),
        candidate("/c/codex", true, 0o755),
    ];
    assert_eq!(
        resolve_codex_binary_from(None, &missing("/s"), Some(&on_path)).unwrap(),
        "/c/codex"
    );
    assert_eq!(
        resolve_codex_binary_from(None, &missing("/s"), None)
            .unwrap_err()
            .render(),
        "PATH is not set; pass --codex PATH"
    );
    assert_eq!(
        resolve_codex_binary_from(None, &missing("/s"), Some(&Vec::new()))
            .unwrap_err()
            .render(),
        "could not find an executable `codex` on PATH; pass --codex PATH"
    );
    assert_eq!(codex_executable_name(true), "codex.exe");
    assert_eq!(
        ensure_executable(&candidate("/d", false, 0o755), "scope")
            .unwrap_err()
            .render(),
        "scope `/d` is not a file"
    );
}

#[test]
fn a_version_check_is_judged_by_what_it_printed() {
    let output = |success: bool, stdout: &[u8], stderr: &[u8]| VersionOutput {
        success,
        status: "exit status: 2".to_string(),
        stdout: stdout.to_vec(),
        stderr: stderr.to_vec(),
    };
    let runtime = resolve_codex_runtime(
        "/opt/codex".to_string(),
        "/home".to_string(),
        output(true, b"codex-cli 0.146.0\n", b""),
        "/home/packages/standalone/current/codex",
        "/home//packages/standalone/./current/codex/",
    )
    .unwrap();
    assert_eq!(runtime.version, "0.146.0");
    assert_eq!(runtime.codex_home, "/home");
    assert!(runtime.standalone_managed);
    let broken = |output| {
        resolve_codex_runtime("/opt/codex".to_string(), "/home".to_string(), output, "/a", "/b")
            .unwrap_err()
            .render()
    };
    assert_eq!(
        broken(output(false, b"", b"  broken \xff pipe\n")),
        "`/opt/codex` --version exited with exit status: 2: broken \u{fffd} pipe"
    );
    assert_eq!(
        broken(output(true, b"codex\xff", b"")),
        "`/opt/codex` --version output was not UTF-8"
    );
    assert!(judge_version("/c", true, "", b"codex-cli 0.1.0".to_vec(), "").is_err());
}

#[test]
fn a_version_check_is_waited_for_until_its_deadline() {
    assert_eq!(version_wait_step(true, 20, 10), VersionWait::Done);
    assert_eq!(version_wait_step(false, 10, 10), VersionWait::TimedOut);
    assert_eq!(version_wait_step(false, 7, 10), VersionWait::Sleep(3));
    assert_eq!(
        version_wait_step(false, 0, 1_000_000_000),
        VersionWait::Sleep(10_000_000)
    );
}

#[test]
fn managed_identity_requires_the_selected_home_and_reviewed_server_version() {
    validate_managed_identity(
        &info(
            "/tmp/codex-a",
            "codex-tamer/0.146.0 (Ubuntu 24.4.0; x86_64) xterm-256color (codex-tamer; 0.3.1)",
        ),
        &home("/tmp/codex-a"),
        &home("/tmp/codex-a"),
    )
    .unwrap();

    let wrong_home = validate_managed_identity(
        &info("/tmp/codex-b", "codex-tamer/0.146.0 (Linux; x86_64)"),
        &home("/tmp/codex-b"),
        &home("/tmp/codex-a"),
    )
    .unwrap_err();
    assert!(wrong_home.render().contains("/tmp/codex-b"));

    let wrong_version = validate_managed_identity(
        &info("/tmp/codex-a", "codex-tamer/0.147.0 (Linux; x86_64)"),
        &home("/tmp/codex-a"),
        &home("/tmp/codex-a"),
    )
    .unwrap_err();
    assert!(wrong_version.render().contains(SUPPORTED_CODEX_VERSION));
}

#[test]
fn app_server_user_agent_version_must_be_structured() {
    assert_eq!(
        server_version_from_user_agent("codex-tamer/0.146.0 (Linux; x86_64)").unwrap(),
        "0.146.0"
    );
    assert!(server_version_from_user_agent("mock-codex").is_err());
    assert!(server_version_from_user_agent("codex_cli_rs/0.146.0").is_err());
    assert!(server_version_from_user_agent("codex_vscode/0.146.0").is_err());
    assert!(server_version_from_user_agent("codex/0.146.0-dev").is_err());
    assert_eq!(
        server_version_from_user_agent(" \t").unwrap_err().render(),
        "app-server initialize response has an empty userAgent"
    );
    assert_eq!(
        server_version_from_user_agent("a/codex-tamer/0.146.0")
            .unwrap_err()
            .render(),
        "app-server product `a/codex-tamer` is incompatible; expected managed client product `codex-tamer`"
    );
}

#[test]
fn a_wrong_version_is_named_before_a_wrong_product() {
    assert_eq!(
        server_version_from_user_agent("codex_cli_rs/0.147.0 (test)")
            .unwrap_err()
            .render(),
        "app-server version `0.147.0` is incompatible; expected reviewed Codex 0.146.0"
    );
    assert_eq!(
        server_version_from_user_agent("codex_cli_rs/0.146.0 (test)")
            .unwrap_err()
            .render(),
        "app-server product `codex_cli_rs` is incompatible; expected managed client product `codex-tamer`"
    );
}

#[test]
fn incompatible_existing_managed_listener_fails_without_invoking_codex() {
    let handshake = || {
        validate_managed_connection(
            Some(peer(Some(1), UID)),
            UID,
            &info("/tmp/codex-home", "codex_cli_rs/0.147.0 (test)"),
            &home("/tmp/codex-home"),
            &home("/tmp/codex-home"),
        )
    };
    let error = probe_optional(handshake(), true).unwrap_err();
    assert!(error
        .render()
        .contains("app-server version `0.147.0` is incompatible"));

    let existing = connect_existing(false, false, Ok(()), false, handshake());
    let (mut start, _) =
        StartMachine::connect_or_start("unix:///tmp/codex.sock", home("/tmp/codex-home"));
    let StartAction::Fail(error) = start.step(StartEvent::Existing(existing)) else {
        panic!("an incompatible reachable listener must not trigger Codex startup");
    };
    assert!(error
        .render()
        .contains("app-server version `0.147.0` is incompatible"));
}

#[test]
fn malformed_reachable_managed_listener_fails_without_invoking_codex() {
    let malformed = || Err(failure("initialize response has an invalid result"));
    let error = probe_optional(malformed(), true).unwrap_err();
    assert!(error
        .render()
        .contains("initialize response has an invalid result"));

    let (mut start, _) =
        StartMachine::connect_or_start("unix:///tmp/codex.sock", home("/tmp/codex-home"));
    let existing = connect_existing(false, false, malformed(), false, Ok(()));
    assert!(matches!(
        start.step(StartEvent::Existing(existing)),
        StartAction::AcquireLock
    ));
    assert!(matches!(
        start.step(StartEvent::Locked(Ok(()))),
        StartAction::ConnectExisting { reject: true }
    ));
    let existing = connect_existing(true, true, malformed(), false, Ok(()));
    let StartAction::Fail(error) = start.step(StartEvent::Existing(existing)) else {
        panic!("a reachable listener with a malformed handshake must not trigger Codex startup");
    };
    assert!(error
        .render()
        .contains("initialize response has an invalid result"));
}

#[test]
fn managed_status_reports_stopped_only_for_an_absent_listener() {
    assert!(!probe_optional(Err(failure("no such socket")), false).unwrap());
    assert!(probe_optional(Err(failure("no handshake")), true).is_err());
}

#[test]
fn managed_commands_reject_an_insecure_runtime_tree_before_connecting() {
    let error = check_private_directory("/run/codex-tamer", true, UID, 0o755, UID).unwrap_err();
    assert!(error.render().contains("must be owned by uid"));
}

#[test]
fn process_record_failure_terminates_the_spawned_app_server() {
    let mut start = spawned_start();
    assert!(matches!(
        start.step(inspection(42)),
        StartAction::WriteRecord { .. }
    ));
    assert!(matches!(
        start.step(StartEvent::Recorded(Err(failure(
            "failed to create process record"
        )))),
        StartAction::Reap
    ));
    let StartAction::Fail(error) = start.step(StartEvent::Reaped(Ok(()))) else {
        panic!("expected a failure");
    };
    assert!(error.render().contains("failed to create process record"));
}

#[test]
fn missing_config_starts_the_selected_codex_listener_with_exact_arguments() {
    let mut start = locked_start();
    let absent = StartEvent::Record {
        record: Ok(None),
        home: String::new(),
    };
    assert!(matches!(start.step(absent), StartAction::ResolveRuntime));
    let StartAction::Spawn {
        codex_bin,
        arguments,
        codex_home,
    } = start.step(StartEvent::Runtime(Ok(runtime())))
    else {
        panic!("expected a start");
    };
    assert_eq!(codex_bin, "/opt/codex");
    assert_eq!(
        arguments,
        ["app-server", "--listen", "unix:///tmp/codex.sock"]
    );
    assert_eq!(codex_home, "/tmp/codex-home");
}

#[test]
fn servers_stop_refuses_a_reachable_external_listener_without_a_process_record() {
    let mut stop = stop_without_record();
    let StopAction::Fail(error) = stop.step(StopEvent::Connected {
        connection: Ok(()),
        ownership: Ok(()),
    }) else {
        panic!("expected a refusal");
    };
    assert!(error
        .render()
        .contains("reachable but is not owned by codex-tamer; refusing to stop it"));
}

#[test]
fn servers_stop_rejects_a_malformed_reachable_listener_without_a_process_record() {
    let mut stop = stop_without_record();
    stop.step(StopEvent::Connected {
        connection: Err(failure("initialize response has an invalid result")),
        ownership: Ok(()),
    });
    let StopAction::Fail(error) = stop.step(StopEvent::Reachable(true)) else {
        panic!("expected a refusal");
    };
    assert!(error
        .render()
        .contains("endpoint is reachable but cannot be verified for shutdown"));
}

#[test]
fn windows_paths_are_joined_with_backslashes() {
    let standalone = |home: &str| standalone_codex_path(home, true);
    assert_eq!(
        standalone(r"C:\Users\me\.codex"),
        r"C:\Users\me\.codex\packages/standalone/current\codex.exe"
    );
    assert_eq!(
        standalone(r"C:\"),
        r"C:\packages/standalone/current\codex.exe"
    );
    assert_eq!(
        standalone("C:"),
        r"C:packages/standalone/current\codex.exe"
    );
    assert_eq!(
        standalone(r"\\?\C:\home\\x\"),
        r"\\?\C:\home\x\packages\standalone\current\codex.exe"
    );
    assert_eq!(
        standalone(r"\\?\UNC\server\share"),
        r"\\?\UNC\server\share\packages\standalone\current\codex.exe"
    );
    assert_eq!(
        standalone(r"\\server\share\home"),
        r"\\server\share\home\packages/standalone/current\codex.exe"
    );
    let directories = vec![
        r"C:\bin".to_string(),
        "C:/bin/".to_string(),
        String::new(),
    ];
    assert_eq!(
        path_candidates(&directories, true),
        [r"C:\bin\codex.exe", "C:/bin/codex.exe", "codex.exe"]
    );
    assert_eq!(
        path_candidates(&directories, false),
        [r"C:\bin/codex", "C:/bin/codex", "codex"]
    );
}

#[test]
fn a_platform_without_modes_asks_for_none() {
    let file = |mode: Option<u32>| Candidate {
        path: "codex".to_string(),
        state: FileState::Present {
            is_file: true,
            mode,
        },
    };
    assert!(ensure_executable(&file(None), "Codex binary on PATH").is_ok());
    assert!(ensure_executable(&file(Some(0o600)), "Codex binary on PATH").is_err());
}

#[test]
fn reused_managed_connection_requires_a_same_uid_peer() {
    let error = validate_managed_connection(
        Some(peer(Some(1), UID + 1)),
        UID,
        &info("/tmp/codex-a", "codex-tamer/0.146.0 (Linux; x86_64)"),
        &home("/tmp/codex-a"),
        &home("/tmp/codex-a"),
    )
    .unwrap_err();

    assert!(error.render().contains(&UID.to_string()));
}

#[test]
fn private_runtime_directory_rejects_broad_permissions() {
    assert!(check_private_directory("/r", true, UID, 0o40700, UID).is_ok());
    for (is_directory, uid, mode) in [
        (true, UID, 0o40755),
        (true, UID + 1, 0o40700),
        (false, UID, 0o100700),
        (true, UID, 0o40500),
    ] {
        assert_eq!(
            check_private_directory("/r", is_directory, uid, mode, UID)
                .unwrap_err()
                .render(),
            "managed runtime directory `/r` must be owned by uid 1000 with mode 0700"
        );
    }
}

#[test]
fn process_record_rejects_non_private_files() {
    assert!(check_private_file("/p", true, UID, 0o100600, UID).is_ok());
    let error = check_private_file("/p", true, UID, 0o100644, UID).unwrap_err();
    assert!(error.render().contains("must be owned by uid"));
    assert!(check_private_file("/p", false, UID, 0o600, UID).is_err());
    assert!(check_private_file("/p", true, 0, 0o600, UID).is_err());
}

#[test]
fn process_record_is_active_while_its_process_runs() {
    assert!(matches!(
        read_active_process_record(record(), &facts()),
        Ok(RecordStep::Active(_))
    ));
    // The group outlives its leader.
    let orphaned = ProcessFacts {
        process_exists: Ok(false),
        process_group: Err(failure("gone")),
        start_time: Err(failure("gone")),
        ..facts()
    };
    assert_eq!(process_matches_record(&record(), &orphaned).unwrap(), true);
    assert_eq!(leader_matches_record(&record(), &orphaned).unwrap(), false);
    assert_eq!(leader_matches_record(&record(), &facts()).unwrap(), true);
}

#[test]
fn stale_process_record_is_removed_only_after_identity_mismatch() {
    let stale = ProcessRecord {
        process_start_time: "confirmed-stale-identity".to_string(),
        ..record()
    };
    assert!(matches!(
        read_active_process_record(stale, &facts()),
        Ok(RecordStep::Stale)
    ));
    for facts in [
        ProcessFacts {
            boot_id: Ok(None),
            ..facts()
        },
        ProcessFacts {
            group_exists: Ok(false),
            ..facts()
        },
        ProcessFacts {
            process_group: Ok(43),
            ..facts()
        },
    ] {
        assert!(matches!(
            read_active_process_record(record(), &facts),
            Ok(RecordStep::Stale)
        ));
    }
    // What cannot be found out does not make a record stale.
    let unknown = ProcessFacts {
        start_time: Err(failure("unreadable")),
        ..facts()
    };
    assert_eq!(
        read_active_process_record(record(), &unknown)
            .unwrap_err()
            .render(),
        "unreadable"
    );
    let newer = ProcessRecord {
        schema_version: 2,
        ..record()
    };
    assert_eq!(
        read_active_process_record(newer, &facts())
            .unwrap_err()
            .render(),
        "unsupported managed process record schema 2; expected 1"
    );
}

#[test]
fn listener_peer_must_belong_to_the_recorded_process_group() {
    let error = validate_peer_identity(
        Some(peer(Some(9), UID)),
        UID,
        &record(),
        &Ok(41),
        &Ok(Some("boot-a".to_string())),
    )
    .unwrap_err();
    assert_eq!(
        error.render(),
        "managed app-server peer pid 9 belongs to process group 41, expected 42"
    );
    assert_eq!(
        validate_peer_identity(
            Some(peer(None, UID)),
            UID,
            &record(),
            &Ok(42),
            &Ok(Some("boot-a".to_string())),
        )
        .unwrap_err()
        .render(),
        "managed app-server peer did not expose a process id"
    );
    assert_eq!(
        validate_peer_identity(
            Some(peer(Some(9), UID)),
            UID,
            &record(),
            &Ok(42),
            &Ok(Some("boot-b".to_string())),
        )
        .unwrap_err()
        .render(),
        "managed app-server process record belongs to another system boot"
    );
    assert!(validate_peer_identity(
        Some(peer(Some(9), UID)),
        UID,
        &record(),
        &Ok(42),
        &Ok(Some("boot-a".to_string())),
    )
    .is_ok());
}

#[test]
fn managed_listener_peer_must_belong_to_the_current_uid() {
    let error = validate_managed_peer_uid(Some(peer(Some(1), UID + 1)), UID).unwrap_err();
    assert!(error.render().contains(&UID.to_string()));
    assert_eq!(
        validate_managed_peer_uid(None, UID).unwrap_err().render(),
        "managed Unix listener did not expose peer credentials"
    );
}

#[test]
fn legacy_process_record_is_preserved_when_identity_cannot_be_verified() {
    let legacy = Json::Object(vec![Member {
        key: "pid".to_string(),
        value: Json::integer(7),
    }]);
    let error = check_record_shape(&legacy, "/run/process.json").unwrap_err();
    assert_eq!(
        error.render(),
        "legacy process record `/run/process.json` cannot be safely validated; preserving it"
    );
    let current = legacy.with("schemaVersion", Json::integer(1));
    assert!(check_record_shape(&current, "/run/process.json").is_ok());
    let error = read_record(r#"{"pid": 7}"#, "/run/process.json").unwrap_err();
    assert_eq!(
        error.render(),
        "legacy process record `/run/process.json` cannot be safely validated; preserving it"
    );
    assert!(matches!(
        read_record(r#"{"schemaVersion": null}"#, "/run/process.json"),
        Ok(None)
    ));
    let error = read_record("{", "/run/process.json").unwrap_err();
    assert_eq!(error.chain[0], "invalid process record `/run/process.json`");
    let cause = serde_json::from_str::<serde_json::Value>("{").unwrap_err();
    assert_eq!(error.chain[1..], [cause.to_string()]);
}

#[test]
fn process_record_round_trips_without_losing_identity() {
    for boot_id in [Some("boot-a".to_string()), None] {
        let written = ProcessRecord {
            boot_id: boot_id.clone(),
            process_start_time: "ps-utc:\"Sat\" \\ \u{1}é😀".to_string(),
            pid: u32::MAX,
            ..record()
        };
        let text = encode_record(&written);
        let read = read_record(&text, "/run/process.json").unwrap().unwrap();
        assert_eq!(read, written);
        let facts = ProcessFacts {
            boot_id: Ok(boot_id),
            start_time: Ok(written.process_start_time.clone()),
            ..facts()
        };
        let Ok(RecordStep::Active(active)) = read_active_process_record(read, &facts) else {
            panic!("expected an active record");
        };
        assert_eq!(active, written);
    }
}

#[test]
fn process_records_are_written_in_a_fixed_form() {
    assert_eq!(
        encode_record(&record()),
        r#"{"schemaVersion":1,"pid":42,"processGroupId":42,"processStartTime":"linux-procfs:77","bootId":"boot-a","codexBin":"/opt/codex","codexVersion":"0.146.0","codexHome":"/tmp/codex-home","endpoint":"unix:///tmp/codex.sock"}"#
    );
}

#[test]
fn only_the_members_of_a_process_record_are_taken_for_one() {
    let decoded = |text: &str| decode_record(&parse_json(text).unwrap());
    let written = encode_record(&record());
    assert_eq!(decoded(&written), Some(record()));
    let rest = &written[1..];
    assert_eq!(decoded(&format!(r#"{{"extra": 1, {rest}"#)), None);
    assert_eq!(decoded(&written.replace(r#""pid":42"#, r#""pid":-1"#)), None);
    assert_eq!(
        decoded(&written.replace(r#""pid":42"#, r#""pid":4294967296"#)),
        None
    );
    assert_eq!(decoded(&written.replace(r#""pid":42"#, r#""pid":42.0"#)), None);
    assert_eq!(decoded(&written.replace(r#""pid":42,"#, "")), None);
    assert_eq!(decoded(&written.replace(r#""boot-a""#, "7")), None);
    let unbooted = ProcessRecord {
        boot_id: None,
        ..record()
    };
    assert_eq!(
        decoded(&written.replace(r#""bootId":"boot-a","#, "")),
        Some(unbooted)
    );
    assert_eq!(decoded("[]"), None);
}

#[test]
fn log_tail_handles_missing_files_and_bounds_output() {
    assert_eq!(read_log_tail(&Vec::new()), "");

    let mut content = vec![b'a'; LOG_TAIL_BYTES + 10];
    content.extend_from_slice(b" final message \n");
    let tail = read_log_tail(&content);
    assert!(tail.len() <= LOG_TAIL_BYTES);
    assert!(tail.ends_with("final message"));
    assert_eq!(read_log_tail(&b" a\xc3(b ".to_vec()), "a\u{fffd}(b");
}

#[test]
fn startup_deadline_bounds_a_stalled_operation() {
    assert_eq!(
        deadline_failure("test operation").render(),
        "timed out during test operation"
    );
    assert_eq!(remaining_before_deadline(10, 4, "x").unwrap(), 6);
    assert_eq!(
        remaining_before_deadline(10, 10, "test operation")
            .unwrap_err()
            .render(),
        "timed out during test operation"
    );
}

#[test]
fn managed_files_stand_beside_the_socket() {
    let unix = |path: &str| Endpoint::Unix {
        path: path.to_string(),
    };
    let paths = ManagedPaths::new(&unix("/run/tamer/abc/app-server.sock")).unwrap();
    assert_eq!(paths.directory, "/run/tamer/abc");
    assert_eq!(paths.lock, "/run/tamer/abc/start.lock");
    assert_eq!(paths.process, "/run/tamer/abc/process.json");
    assert_eq!(paths.stderr_log, "/run/tamer/abc/app-server.stderr.log");
    assert_eq!(paths.root().unwrap(), "/run/tamer");
    assert_eq!(
        ManagedPaths::new(&unix("/")).unwrap_err().render(),
        "managed app-server socket has no parent directory"
    );
    let bare = ManagedPaths::new(&unix("a.sock")).unwrap();
    assert_eq!(bare.lock, "start.lock");
    assert_eq!(
        bare.root().unwrap_err().render(),
        "managed runtime directory has no parent"
    );
    assert_eq!(
        ManagedPaths::new(&Endpoint::WebSocket {
            url: "ws://x".to_string(),
            auth_token: None
        })
        .unwrap_err()
        .render(),
        "managed app-server requires a Unix socket endpoint"
    );
}

#[test]
fn the_start_lock_is_tried_until_its_deadline() {
    assert!(matches!(
        acquire_start_lock(LockAttempt::Acquired, 20, 10),
        LockStep::Acquired
    ));
    assert!(matches!(
        acquire_start_lock(LockAttempt::Busy, 9, 10),
        LockStep::Retry
    ));
    let LockStep::Fail(error) = acquire_start_lock(LockAttempt::Busy, 10, 10) else {
        panic!("expected a failure");
    };
    assert_eq!(
        error.render(),
        "timed out waiting for managed app-server start lock"
    );
    let LockStep::Fail(error) =
        acquire_start_lock(LockAttempt::Failed(failure("bad descriptor")), 0, 10)
    else {
        panic!("expected a failure");
    };
    assert_eq!(
        error.render(),
        "failed to acquire managed app-server start lock: bad descriptor"
    );
}

#[test]
fn process_start_times_are_read_from_the_status_line() {
    let line = "12 (co) dex) S 1 2 3 4 5 6 7 8 9 10 11 12 13 14 15 16 17 18 9001 20";
    assert_eq!(
        process_start_time_from_stat(line, "/proc/12/stat").unwrap(),
        "linux-procfs:9001"
    );
    assert_eq!(
        process_start_time_from_stat("12 codex", "/proc/12/stat")
            .unwrap_err()
            .render(),
        "managed app-server identity `/proc/12/stat` is malformed"
    );
    assert_eq!(
        process_start_time_from_stat("12 (c) S 1 2", "/proc/12/stat")
            .unwrap_err()
            .render(),
        "managed app-server identity `/proc/12/stat` has no start time"
    );
    let line = "12 (c) S 1 2 3 4 5 6 7 8 9 10 11 12 13 14 15 16 17 18 x 20";
    assert_eq!(
        process_start_time_from_stat(line, "/proc/12/stat")
            .unwrap_err()
            .chain,
        [
            "managed app-server identity `/proc/12/stat` has an invalid start time".to_string(),
            "x".parse::<u64>().unwrap_err().to_string(),
        ]
    );
    let line = "12 (c) S 1 2 3 4 5 6 7 8 9 10 11 12 13 14 15 16 17 18 18446744073709551616 20";
    assert_eq!(
        process_start_time_from_stat(line, "/proc/12/stat")
            .unwrap_err()
            .chain[1],
        "18446744073709551616"
            .parse::<u64>()
            .unwrap_err()
            .to_string()
    );
    assert_eq!(
        process_start_time_from_ps(true, b" Sat Aug  8 16:32:35 2026\n".to_vec(), 5).unwrap(),
        "ps-utc:Sat Aug  8 16:32:35 2026"
    );
    assert_eq!(
        process_start_time_from_ps(true, b"\n".to_vec(), 5)
            .unwrap_err()
            .render(),
        "managed app-server pid 5 has no start time"
    );
    assert_eq!(
        process_start_time_from_ps(true, vec![0xff], 5)
            .unwrap_err()
            .chain,
        [
            "managed app-server process start time was not UTF-8".to_string(),
            String::from_utf8(vec![0xff]).unwrap_err().to_string(),
        ]
    );
    assert_eq!(
        process_start_time_from_ps(false, b"now".to_vec(), 5)
            .unwrap_err()
            .render(),
        "failed to read start time for managed app-server pid 5"
    );
    assert_eq!(current_boot_id(" abc\n").unwrap(), "abc");
    assert_eq!(
        current_boot_id("\n").unwrap_err().render(),
        "Linux boot identity is empty"
    );
}

#[test]
fn signals_tell_whether_a_process_exists() {
    assert!(exists_by_signal(SignalOutcome::Delivered, "process 1").unwrap());
    assert!(exists_by_signal(SignalOutcome::NotPermitted(failure("p")), "process 1").unwrap());
    assert!(!exists_by_signal(SignalOutcome::NoSuchProcess, "process 1").unwrap());
    assert_eq!(
        exists_by_signal(SignalOutcome::Failed(failure("odd")), "process 1")
            .unwrap_err()
            .render(),
        "failed to inspect process 1: odd"
    );
    assert!(signal_process_group(SignalOutcome::NoSuchProcess, 8).is_ok());
    assert!(signal_process_group(SignalOutcome::Delivered, 8).is_ok());
    assert_eq!(
        signal_process_group(SignalOutcome::NotPermitted(failure("denied")), 8)
            .unwrap_err()
            .render(),
        "failed to signal process group 8: denied"
    );
    assert!(signal_process_group(SignalOutcome::Failed(failure("odd")), 8).is_err());
    assert_eq!(raw_process_id(2_147_483_647, "pid").unwrap(), i32::MAX);
    assert_eq!(
        raw_process_id(2_147_483_648, "pid").unwrap_err().chain,
        [
            "managed app-server pid 2147483648 is out of range".to_string(),
            i32::try_from(2_147_483_648u32).unwrap_err().to_string(),
        ]
    );
    assert_eq!(read_process_group(7, Ok(9)).unwrap(), 9);
    assert_eq!(
        read_process_group(7, Ok(-2)).unwrap_err().chain,
        [
            "managed app-server process group -2 is invalid".to_string(),
            u32::try_from(-2i32).unwrap_err().to_string(),
        ]
    );
    assert_eq!(
        peer_identity_from(Some(-3), 4, 5).unwrap_err().chain,
        [
            "app-server UDS peer pid is invalid".to_string(),
            u32::try_from(-3i32).unwrap_err().to_string(),
        ]
    );
    assert_eq!(
        peer_identity_from(Some(3), 4, 5).unwrap(),
        PeerIdentity {
            pid: Some(3),
            uid: 4,
            gid: 5
        }
    );
    assert_eq!(peer_identity_from(None, 4, 5).unwrap().pid, None);
    assert_eq!(
        read_process_group(7, Err(failure("gone"))).unwrap_err().render(),
        "failed to inspect process group for pid 7: gone"
    );
    assert!(check_signal_target(&record(), Ok(false), Err(failure("x"))).is_ok());
    assert!(check_signal_target(&record(), Ok(true), Ok(42)).is_ok());
    assert_eq!(
        check_signal_target(&record(), Ok(true), Ok(7))
            .unwrap_err()
            .render(),
        "managed app-server pid 42 belongs to unexpected process group 7"
    );
    assert!(check_signal_target(&record(), Err(failure("x")), Ok(42)).is_err());
    assert!(check_signal_target(&record(), Ok(true), Err(failure("x"))).is_err());
}

#[test]
fn a_reused_listener_is_reported_by_who_owns_it() {
    let endpoint = "unix:///tmp/codex.sock";
    let selected = home("/tmp/codex-home");
    let own = reused_report(
        endpoint,
        &selected,
        Some(&record()),
        "/tmp/codex-home",
        &peer_facts(),
    )
    .unwrap();
    assert_eq!(own.status, "reused");
    assert_eq!(own.backend, "codex-tamer");
    assert_eq!(own.pid, Some(42));
    assert_eq!(own.codex_version.as_deref(), Some(SUPPORTED_CODEX_VERSION));

    let other = reused_report(endpoint, &selected, None, "", &peer_facts()).unwrap();
    assert_eq!(other.backend, "external");
    assert_eq!(other.pid, None);
    let elsewhere =
        reused_report(endpoint, &selected, Some(&record()), "/tmp/b", &peer_facts()).unwrap();
    assert_eq!(elsewhere.backend, "external");

    let stranger = PeerFacts {
        peer_group: Ok(7),
        ..peer_facts()
    };
    assert!(reused_report(
        endpoint,
        &selected,
        Some(&record()),
        "/tmp/codex-home",
        &stranger
    )
    .is_err());
}

#[test]
fn existing_listener_handshake_respects_the_startup_deadline() {
    let error = connect_existing(
        true,
        true,
        Err(deadline_failure("managed app-server handshake")),
        false,
        Ok(()),
    )
    .unwrap_err();
    let rendered = error.render();
    assert!(
        rendered.contains("timed out during managed app-server handshake"),
        "unexpected error: {rendered}"
    );
}

#[test]
fn a_failed_handshake_counts_as_no_listener_unless_it_is_rejected() {
    assert!(!connect_existing(false, false, Err(failure("refused")), true, Ok(())).unwrap());
    assert!(!connect_existing(true, false, Err(failure("refused")), false, Ok(())).unwrap());
    assert!(connect_existing(true, false, Err(failure("refused")), true, Ok(())).is_err());
    assert!(connect_existing(false, false, Ok(()), true, Ok(())).unwrap());
    assert_eq!(
        connect_existing(false, false, Ok(()), true, Err(failure("stranger")))
            .unwrap_err()
            .render(),
        "stranger"
    );
    assert!(probe_optional(Ok(()), false).unwrap());
    assert!(!probe_optional(Err(failure("x")), false).unwrap());
    assert!(probe_optional(Err(failure("x")), true).is_err());
    assert_eq!(
        probe("unix:///s").render(),
        "managed app-server at `unix:///s` is not running"
    );
}

#[test]
fn a_starting_server_is_tried_until_its_deadline() {
    assert!(matches!(wait_for_server(Ok(()), Ok(()), 9, 1), ReadyStep::Ready));
    assert!(matches!(
        wait_for_server(Err(failure("a")), Ok(()), 0, 1),
        ReadyStep::Retry
    ));
    assert!(matches!(
        wait_for_server(Ok(()), Err(failure("b")), 0, 1),
        ReadyStep::Retry
    ));
    let ReadyStep::Fail(error) = wait_for_server(Ok(()), Err(failure("b")), 1, 1) else {
        panic!("expected a failure");
    };
    assert_eq!(error.render(), "b");
}

fn locked_start() -> StartMachine {
    let (mut start, action) =
        StartMachine::connect_or_start("unix:///tmp/codex.sock", home("/tmp/codex-home"));
    assert!(matches!(
        action,
        StartAction::ConnectExisting { reject: false }
    ));
    assert!(matches!(
        start.step(StartEvent::Existing(Ok(false))),
        StartAction::AcquireLock
    ));
    assert!(matches!(
        start.step(StartEvent::Locked(Ok(()))),
        StartAction::ConnectExisting { reject: true }
    ));
    assert!(matches!(
        start.step(StartEvent::Existing(Ok(false))),
        StartAction::ReadRecord
    ));
    start
}

fn runtime() -> codex_tamer::codex_runtime::CodexRuntime {
    codex_tamer::codex_runtime::CodexRuntime {
        codex_bin: "/opt/codex".to_string(),
        codex_home: "/tmp/codex-home".to_string(),
        version: SUPPORTED_CODEX_VERSION.to_string(),
        standalone_managed: false,
    }
}

fn spawned_start() -> StartMachine {
    let mut start = locked_start();
    assert!(matches!(
        start.step(StartEvent::Record {
            record: Ok(None),
            home: String::new()
        }),
        StartAction::ResolveRuntime
    ));
    let StartAction::Spawn {
        codex_bin,
        arguments,
        codex_home,
    } = start.step(StartEvent::Runtime(Ok(runtime())))
    else {
        panic!("expected a spawn");
    };
    assert_eq!(codex_bin, "/opt/codex");
    assert_eq!(
        arguments,
        vec!["app-server", "--listen", "unix:///tmp/codex.sock"]
    );
    assert_eq!(codex_home, "/tmp/codex-home");
    assert!(start.lock_held && start.record_free);
    assert!(matches!(
        start.step(StartEvent::Spawned(Ok(42))),
        StartAction::Inspect { pid: 42 }
    ));
    start
}

fn inspection(group: u32) -> StartEvent {
    StartEvent::Inspected {
        start_time: Ok("linux-procfs:77".to_string()),
        process_group: Ok(group),
        boot_id: Ok(Some("boot-a".to_string())),
    }
}

fn waiting_start() -> StartMachine {
    let mut start = spawned_start();
    let StartAction::WriteRecord { record } = start.step(inspection(42)) else {
        panic!("expected a record");
    };
    assert_eq!(record.pid, 42);
    assert_eq!(record.process_group_id, 42);
    assert_eq!(record.endpoint, "unix:///tmp/codex.sock");
    assert_eq!(record.schema_version, PROCESS_RECORD_SCHEMA_VERSION);
    assert!(matches!(
        start.step(StartEvent::Recorded(Ok(()))),
        StartAction::WaitReady
    ));
    start
}

#[test]
fn active_process_record_prevents_a_duplicate_start() {
    let mut start = locked_start();
    let StartAction::Fail(error) = start.step(StartEvent::Record {
        record: Ok(Some(record())),
        home: "/tmp/codex-home".to_string(),
    }) else {
        panic!("active process record allowed a duplicate start");
    };
    assert_eq!(
        error.render(),
        "managed app-server pid 42 is still running but `unix:///tmp/codex.sock` is not ready; refusing to start a duplicate process"
    );
    assert_eq!(start.phase, StartPhase::Ended);
    assert_eq!(start.child, None);

    let mut start = locked_start();
    let StartAction::Fail(error) = start.step(StartEvent::Record {
        record: Ok(Some(record())),
        home: "/tmp/other-home".to_string(),
    }) else {
        panic!("a record of another target allowed a start");
    };
    assert_eq!(
        error.render(),
        "managed app-server process record does not match the selected target"
    );
}

#[test]
fn a_start_reports_the_server_it_started() {
    let mut start = waiting_start();
    let StartAction::Finish(report) = start.step(StartEvent::Ready(Ok(()))) else {
        panic!("expected a report");
    };
    assert_eq!(report.status, "started");
    assert_eq!(report.backend, "codex-tamer");
    assert_eq!(report.codex_bin.as_deref(), Some("/opt/codex"));
    assert_eq!(report.pid, Some(42));
}

#[test]
fn a_process_in_another_group_is_ended() {
    let mut start = spawned_start();
    assert!(matches!(start.step(inspection(7)), StartAction::Reap));
    let StartAction::Fail(error) = start.step(StartEvent::Reaped(Ok(()))) else {
        panic!("expected a failure");
    };
    assert_eq!(
        error.render(),
        "managed app-server pid 42 started in unexpected process group 7"
    );
    assert_eq!(start.child, None);
}

#[test]
fn cleanup_spawn_failure_terminates_a_ready_process_group() {
    let mut start = spawned_start();
    assert!(matches!(start.step(inspection(42)), StartAction::WriteRecord { .. }));
    assert!(matches!(
        start.step(StartEvent::Recorded(Err(failure("forced process record failure")))),
        StartAction::Reap
    ));
    let StartAction::Fail(error) = start.step(StartEvent::Reaped(Err(
        failure("no such process").context("failed to reap spawned app-server"),
    ))) else {
        panic!("expected a failure");
    };
    assert_eq!(
        error.render(),
        "also failed to terminate and reap spawned app-server: failed to reap spawned app-server: no such process: forced process record failure"
    );
    assert!(start.reap_failed);
}

#[test]
fn a_server_that_does_not_get_ready_is_ended_and_forgotten() {
    let mut start = waiting_start();
    assert!(matches!(
        start.step(StartEvent::Ready(Err(failure("no handshake")))),
        StartAction::Reap
    ));
    assert!(matches!(
        start.step(StartEvent::Reaped(Ok(()))),
        StartAction::RemoveRecordAndReadTail
    ));
    let StartAction::Fail(error) = start.step(StartEvent::Tail("port in use".to_string())) else {
        panic!("expected a failure");
    };
    assert_eq!(
        error.chain,
        vec![
            "managed Codex app-server did not become ready; stderr tail:\nport in use",
            "no handshake"
        ]
    );

    let mut start = waiting_start();
    start.step(StartEvent::Ready(Err(failure("no handshake"))));
    assert!(matches!(
        start.step(StartEvent::Reaped(Err(failure("denied")))),
        StartAction::ReadTail
    ));
    let StartAction::Fail(error) = start.step(StartEvent::Tail(String::new())) else {
        panic!("expected a failure");
    };
    assert_eq!(
        error.chain,
        vec![
            "managed Codex app-server did not become ready",
            "also failed to terminate and reap spawned app-server; preserving ownership record: denied",
            "no handshake"
        ]
    );
}

fn stop_with_record() -> StopMachine {
    let (mut stop, action) = StopMachine::stop("unix:///tmp/codex.sock", home("/tmp/codex-home"));
    assert!(matches!(action, StopAction::AcquireLock));
    assert!(matches!(
        stop.step(StopEvent::Locked(Ok(()))),
        StopAction::ReadRecord
    ));
    assert!(matches!(
        stop.step(StopEvent::Record {
            record: Ok(Some(record())),
            home: "/tmp/codex-home".to_string()
        }),
        StopAction::Connect
    ));
    stop
}

fn stop_without_record() -> StopMachine {
    let (mut stop, _) = StopMachine::stop("unix:///tmp/codex.sock", home("/tmp/codex-home"));
    stop.step(StopEvent::Locked(Ok(())));
    assert!(matches!(
        stop.step(StopEvent::Record {
            record: Ok(None),
            home: String::new()
        }),
        StopAction::ConnectBounded
    ));
    stop
}

#[test]
fn stop_waits_for_the_managed_lifecycle_lock() {
    let (mut stop, action) = StopMachine::stop("unix:///s", home("/h"));
    assert!(matches!(action, StopAction::AcquireLock));
    assert!(!stop.lock_held);
    let StopAction::Fail(error) = stop.step(StopEvent::Locked(Err(failure(
        "timed out waiting for managed app-server start lock",
    )))) else {
        panic!("stop went on without the lock");
    };
    assert_eq!(
        error.render(),
        "timed out waiting for managed app-server start lock"
    );
    assert_eq!(stop.phase, StopPhase::Ended);
}

#[test]
fn stop_ends_the_recorded_group_and_removes_its_record() {
    let mut stop = stop_with_record();
    assert!(matches!(
        stop.step(StopEvent::Connected {
            connection: Ok(()),
            ownership: Ok(())
        }),
        StopAction::Signal
    ));
    assert!(matches!(
        stop.step(StopEvent::Signalled(Ok(()))),
        StopAction::CheckGroup
    ));
    assert!(matches!(
        stop.step(StopEvent::Group {
            exists: Ok(true),
            now: 1,
            deadline: 2
        }),
        StopAction::SleepAndCheckGroup
    ));
    let StopAction::RemoveRecordAndFinish(report) = stop.step(StopEvent::Group {
        exists: Ok(false),
        now: 9,
        deadline: 2,
    }) else {
        panic!("expected the end");
    };
    assert_eq!(report.status, "stopped");
    assert_eq!(report.pid, Some(42));
    assert_eq!(report.codex_home, "/tmp/codex-home");
}

#[test]
fn stop_gives_up_at_its_deadline() {
    let mut stop = stop_with_record();
    stop.step(StopEvent::Connected {
        connection: Ok(()),
        ownership: Ok(()),
    });
    stop.step(StopEvent::Signalled(Ok(())));
    let StopAction::Fail(error) = stop.step(StopEvent::Group {
        exists: Ok(true),
        now: 2,
        deadline: 2,
    }) else {
        panic!("expected a failure");
    };
    assert_eq!(
        error.render(),
        "timed out waiting for managed app-server process group 42 to stop"
    );
}

#[test]
fn stop_proves_ownership_before_it_signals() {
    let mut stop = stop_with_record();
    assert!(matches!(
        stop.step(StopEvent::Connected {
            connection: Ok(()),
            ownership: Err(failure("stranger"))
        }),
        StopAction::Fail(_)
    ));

    let mut stop = stop_with_record();
    assert!(matches!(
        stop.step(StopEvent::Connected {
            connection: Err(failure("refused")),
            ownership: Ok(())
        }),
        StopAction::ProbeReachable
    ));
    let StopAction::Fail(error) = stop.step(StopEvent::Reachable(true)) else {
        panic!("expected a failure");
    };
    assert_eq!(
        error.render(),
        "managed app-server endpoint is reachable but cannot be verified for shutdown: refused"
    );

    let mut stop = stop_with_record();
    stop.step(StopEvent::Connected {
        connection: Err(failure("refused")),
        ownership: Ok(()),
    });
    assert!(matches!(
        stop.step(StopEvent::Reachable(false)),
        StopAction::CheckLeader
    ));
    let StopAction::Fail(error) = stop.step(StopEvent::Leader(Ok(false))) else {
        panic!("expected a failure");
    };
    assert_eq!(
        error.render(),
        "managed app-server endpoint is unavailable and pid 42 cannot prove ownership of process group 42; refusing to stop it"
    );

    let mut stop = stop_with_record();
    stop.step(StopEvent::Connected {
        connection: Err(failure("refused")),
        ownership: Ok(()),
    });
    stop.step(StopEvent::Reachable(false));
    assert!(matches!(
        stop.step(StopEvent::Leader(Ok(true))),
        StopAction::Signal
    ));
    let StopAction::Fail(error) = stop.step(StopEvent::Signalled(Err(failure("denied")))) else {
        panic!("expected a failure");
    };
    assert_eq!(
        error.render(),
        "failed to stop managed app-server pid 42: denied"
    );
}

#[test]
fn stop_leaves_a_listener_that_nobody_recorded_alone() {
    let mut stop = stop_without_record();
    let StopAction::Fail(error) = stop.step(StopEvent::Connected {
        connection: Ok(()),
        ownership: Ok(()),
    }) else {
        panic!("expected a failure");
    };
    assert_eq!(
        error.render(),
        "app-server at `unix:///tmp/codex.sock` is reachable but is not owned by codex-tamer; refusing to stop it"
    );

    let mut stop = stop_without_record();
    assert!(matches!(
        stop.step(StopEvent::Connected {
            connection: Err(failure("malformed")),
            ownership: Ok(())
        }),
        StopAction::ProbeReachable
    ));
    assert!(matches!(
        stop.step(StopEvent::Reachable(true)),
        StopAction::Fail(_)
    ));

    let mut stop = stop_without_record();
    stop.step(StopEvent::Connected {
        connection: Err(failure("refused")),
        ownership: Ok(()),
    });
    let StopAction::Finish(report) = stop.step(StopEvent::Reachable(false)) else {
        panic!("expected a report");
    };
    assert_eq!(report.status, "notRunning");
    assert_eq!(report.pid, None);
}
