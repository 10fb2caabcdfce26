use vstd::prelude::*;
use vstd::utf8::*;

use crate::bytes::{lossy_text, read_lossy, read_utf8};
use crate::errors::Failure;
use crate::paths::{is_same_path, join_path, joined_path, same_path};
use crate::text::{concat3, concat5, same_text};
use crate::windows_paths::{join_windows_path, windows_joined_path};
use crate::words::{split_words, text_views, trim, trimmed, words};

verus! {

/// The one Codex release whose protocol this client was written for.
pub const SUPPORTED_CODEX_VERSION: &'static str = "0.146.0";

/// How long the version check may take, in seconds.
pub const CODEX_VERSION_TIMEOUT_SECS: u64 = 10;

/// How long to wait between two looks at the version check, in nanoseconds.
pub const VERSION_POLL_INTERVAL_NANOS: u64 = 10_000_000;

/// A Codex binary that can serve this client.
#[derive(Debug, Clone, PartialEq, Eq)]
pub struct CodexRuntime {
    pub codex_bin: String,
    pub codex_home: String,
    pub version: String,
    /// Whether the binary is the one that Codex manages below its home.
    pub standalone_managed: bool,
}

/// What is wrong with the output of a version check, if anything is.
pub open spec fn version_fault(stdout: Seq<char>) -> Option<Seq<char>> {
    let fields = words(stdout);
    if fields.len() != 2 || fields[0] != "codex-cli"@ {
        Some("unexpected `codex --version` output: `"@ + trimmed(stdout) + "`"@)
    } else if fields[1] != SUPPORTED_CODEX_VERSION@ {
        Some(
            "Codex "@ + fields[1]
                + " is incompatible with the reviewed app-server protocol; expected 0.146.0"@,
        )
    } else {
        None
    }
}

/// Reads the output of a version check, which must name the supported release and nothing
/// else.
pub fn parse_supported_codex_version(stdout: &str) -> (version: Result<String, Failure>)
    ensures
        match version {
            Ok(version) => version_fault(stdout@) is None && version@ == SUPPORTED_CODEX_VERSION@,
            Err(failure) => version_fault(stdout@) matches Some(fault) && failure@ == seq![fault],
        },
{
    let fields = split_words(stdout);
    let ghost views = words(stdout@);
    assert(views == text_views(fields@));
    if fields.len() != 2 || !same_text(fields[0].as_str(), "codex-cli") {
        let message = concat3("unexpected `codex --version` output: `", trim(stdout), "`");
        return Err(Failure::of(message));
    }
    assert(views[1] == fields@[1]@);
    if !same_text(fields[1].as_str(), SUPPORTED_CODEX_VERSION) {
        let message = concat3(
            "Codex ",
            fields[1].as_str(),
            " is incompatible with the reviewed app-server protocol; expected 0.146.0",
        );
        return Err(Failure::of(message));
    }
    Ok(fields[1].clone())
}

/// The file name of the Codex binary.
pub open spec fn executable_name(windows: bool) -> Seq<char> {
    if windows {
        "codex.exe"@
    } else {
        "codex"@
    }
}

pub fn codex_executable_name(windows: bool) -> (name: &'static str)
    ensures
        name@ == executable_name(windows),
{
    if windows {
        "codex.exe"
    } else {
        "codex"
    }
}

/// A relative path below a directory, as the platform writes it.
pub open spec fn native_path(directory: Seq<char>, name: Seq<char>, windows: bool) -> Seq<char> {
    if windows {
        windows_joined_path(directory, name)
    } else {
        joined_path(directory, name)
    }
}

fn join_native_path(directory: &str, name: &str, windows: bool) -> (path: String)
    ensures
        path@ == native_path(directory@, name@, windows),
{
    if windows {
        join_windows_path(directory, name)
    } else {
        join_path(directory, name)
    }
}

/// Where Codex keeps the binary that it manages itself.
pub open spec fn standalone_path(codex_home: Seq<char>, windows: bool) -> Seq<char> {
    native_path(
        native_path(codex_home, "packages/standalone/current"@, windows),
        executable_name(windows),
        windows,
    )
}

pub fn standalone_codex_path(codex_home: &str, windows: bool) -> (path: String)
    ensures
        path@ == standalone_path(codex_home@, windows),
{
    let directory = join_native_path(codex_home, "packages/standalone/current", windows);
    join_native_path(directory.as_str(), codex_executable_name(windows), windows)
}

/// The candidates in some directories.
pub fn path_candidates(directories: &Vec<String>, windows: bool) -> (candidates: Vec<String>)
    ensures
        candidates@.len() == directories@.len(),
        forall|i: int|
            0 <= i < candidates@.len() ==> (#[trigger] candidates@[i])@ == native_path(
                directories@[i]@,
                executable_name(windows),
                windows,
            ),
{
    let mut candidates: Vec<String> = Vec::new();
    let mut i: usize = 0;
    while i < directories.len()
        invariant
            i <= directories@.len(),
            candidates@.len() == i,
            forall|j: int|
                0 <= j < i ==> (#[trigger] candidates@[j])@ == native_path(
                    directories@[j]@,
                    executable_name(windows),
                    windows,
                ),
        decreases directories@.len() - i,
    {
        candidates.push(
            join_native_path(directories[i].as_str(), codex_executable_name(windows), windows),
        );
        i += 1;
    }
    candidates
}

/// What is known of a file.
#[derive(Debug)]
pub enum FileState {
    /// The file cannot be looked at, and why.
    Unavailable { error: String },
    /// A file, a directory or the like, with its mode where the platform has modes.
    Present { is_file: bool, mode: Option<u32> },
}

/// A file that may be the Codex binary.
#[derive(Debug)]
pub struct Candidate {
    pub path: String,
    pub state: FileState,
}

impl Candidate {
    pub open spec fn is_file(self) -> bool {
        self.state matches FileState::Present { is_file, .. } && is_file
    }

    /// What keeps the file from being executed, if anything does.
    pub open spec fn fault(self, scope: Seq<char>) -> Option<Seq<char>> {
        match self.state {
            FileState::Unavailable { error } => Some(
                scope + " `"@ + self.path@ + "` is unavailable: "@ + error@,
            ),
            FileState::Present { is_file, mode } => if !is_file {
                Some(scope + " `"@ + self.path@ + "` is not a file"@)
            } else {
                match mode {
                    Some(mode) if mode & 0o111 == 0 => Some(
                        scope + " `"@ + self.path@ + "` is not executable"@,
                    ),
                    _ => None,
                }
            },
        }
    }
}

pub fn ensure_executable(candidate: &Candidate, scope: &str) -> (usable: Result<(), Failure>)
    ensures
        match usable {
            Ok(()) => candidate.fault(scope@) is None,
            Err(failure) => candidate.fault(scope@) matches Some(fault) && failure@ == seq![fault],
        },
{
    let path = candidate.path.as_str();
    match &candidate.state {
        FileState::Unavailable { error } => Err(
            Failure::of(concat5(scope, " `", path, "` is unavailable: ", error.as_str())),
        ),
        FileState::Present { is_file, mode } => {
            if !*is_file {
                let mut message = concat3(scope, " `", path);
                message.append("` is not a file");
                return Err(Failure::of(message));
            }
            if let Some(mode) = mode {
                if *mode & 0o111 == 0 {
                    let mut message = concat3(scope, " `", path);
                    message.append("` is not executable");
                    return Err(Failure::of(message));
                }
            }
            Ok(())
        },
    }
}

/// Whether candidate `i` is the first on the search path that can be executed.
pub open spec fn is_first_usable(candidates: Seq<Candidate>, i: int) -> bool {
    &&& 0 <= i < candidates.len()
    &&& candidates[i].fault("Codex binary on PATH"@) is None
    &&& forall|j: int|
        0 <= j < i ==> (#[trigger] candidates[j]).fault("Codex binary on PATH"@) is Some
}

/// The Codex binary, or why there is none: the one that was configured, which nothing stands
/// in for; else the one that Codex manages, where there is one; else the first on the search
/// path that can be executed.
pub open spec fn resolved_binary(
    explicit: Option<Candidate>,
    standalone: Candidate,
    on_path: Option<Seq<Candidate>>,
) -> Result<Seq<char>, Seq<char>> {
    match explicit {
        Some(candidate) => match candidate.fault("configured Codex binary"@) {
            Some(fault) => Err(fault),
            None => Ok(candidate.path@),
        },
        None => if standalone.is_file() {
            match standalone.fault("standalone Codex binary"@) {
                Some(fault) => Err(fault),
                None => Ok(standalone.path@),
            }
        } else {
            match on_path {
                None => Err("PATH is not set; pass --codex PATH"@),
                Some(candidates) => if exists|i: int| is_first_usable(candidates, i) {
                    Ok(candidates[choose|i: int| is_first_usable(candidates, i)].path@)
                } else {
                    Err("could not find an executable `codex` on PATH; pass --codex PATH"@)
                },
            }
        },
    }
}

pub fn resolve_codex_binary_from(
    explicit: Option<&Candidate>,
    standalone: &Candidate,
    on_path: Option<&Vec<Candidate>>,
) -> (binary: Result<String, Failure>)
    ensures
        ({
            let expected = resolved_binary(
                match explicit {
                    Some(candidate) => Some(*candidate),
                    None => None,
                },
                *standalone,
                match on_path {
                    Some(candidates) => Some(candidates@),
                    None => None,
                },
            );
            match binary {
                Ok(path) => expected == Ok::<Seq<char>, Seq<char>>(path@),
                Err(failure) => expected matches Err(fault) && failure@ == seq![fault],
            }
        }),
{
    if let Some(candidate) = explicit {
        return match ensure_executable(candidate, "configured Codex binary") {
            Ok(()) => Ok(candidate.path.clone()),
            Err(failure) => Err(failure),
        };
    }
    let managed = match &standalone.state {
        FileState::Present { is_file, .. } => *is_file,
        FileState::Unavailable { .. } => false,
    };
    if managed {
        return match ensure_executable(standalone, "standalone Codex binary") {
            Ok(()) => Ok(standalone.path.clone()),
            Err(failure) => Err(failure),
        };
    }
    let candidates = match on_path {
        Some(candidates) => candidates,
        None => {
            return Err(Failure::new("PATH is not set; pass --codex PATH"));
        },
    };
    let mut i: usize = 0;
    while i < candidates.len()
        invariant
            i <= candidates@.len(),
            explicit is None,
            !standalone.is_file(),
            on_path == Some(candidates),
            forall|j: int|
                0 <= j < i ==> (#[trigger] candidates@[j]).fault("Codex binary on PATH"@) is Some,
        decreases candidates@.len() - i,
    {
        if ensure_executable(&candidates[i], "Codex binary on PATH").is_ok() {
            proof {
                assert(is_first_usable(candidates@, i as int));
                let k = choose|k: int| is_first_usable(candidates@, k);
                assert(k == i) by {
                    if k < i {
                        assert(candidates@[k].fault("Codex binary on PATH"@) is Some);
                    }
                    if i < k {
                        assert(candidates@[i as int].fault("Codex binary on PATH"@) is Some);
                    }
                }
            }
            return Ok(candidates[i].path.clone());
        }
        i += 1;
    }
    assert(forall|k: int| !is_first_usable(candidates@, k));
    Err(Failure::new("could not find an executable `codex` on PATH; pass --codex PATH"))
}

/// What to do about a version check that is running.
#[derive(Debug, Clone, Copy, PartialEq, Eq, Structural)]
pub enum VersionWait {
    /// It has ended.
    Done,
    /// It takes too long and is to be killed.
    TimedOut,
    /// Look again after so many nanoseconds.
    Sleep(u64),
}

pub fn version_wait_step(exited: bool, now: u64, deadline: u64) -> (step: VersionWait)
    ensures
        step == if exited {
            VersionWait::Done
        } else if now >= deadline {
            VersionWait::TimedOut
        } else if deadline - now < VERSION_POLL_INTERVAL_NANOS {
            VersionWait::Sleep((deadline - now) as u64)
        } else {
            VersionWait::Sleep(VERSION_POLL_INTERVAL_NANOS)
        },
{
    if exited {
        VersionWait::Done
    } else if now >= deadline {
        VersionWait::TimedOut
    } else if deadline - now < VERSION_POLL_INTERVAL_NANOS {
        VersionWait::Sleep(deadline - now)
    } else {
        VersionWait::Sleep(VERSION_POLL_INTERVAL_NANOS)
    }
}

/// What a version check that has ended left behind.
#[derive(Debug)]
pub struct VersionOutput {
    pub success: bool,
    /// How it ended, in words.
    pub status: String,
    pub stdout: Vec<u8>,
    pub stderr: Vec<u8>,
}

/// What a version check that has ended shows to be wrong, if anything, given the text of what
/// it complained of.
pub open spec fn check_fault(
    codex_bin: Seq<char>,
    success: bool,
    status: Seq<char>,
    stdout: Seq<u8>,
    complaint: Seq<char>,
) -> Option<Seq<char>> {
    if !success {
        Some(
            "`"@ + codex_bin + "` --version exited with "@ + status + ": "@ + trimmed(complaint),
        )
    } else if !valid_utf8(stdout) {
        Some("`"@ + codex_bin + "` --version output was not UTF-8"@)
    } else {
        version_fault(decode_utf8(stdout))
    }
}

/// Judges a version check that has ended, given the text of what it complained of.
pub fn judge_version(
    codex_bin: &str,
    success: bool,
    status: &str,
    stdout: Vec<u8>,
    complaint: &str,
) -> (version: Result<String, Failure>)
    ensures
        match version {
            Ok(version) => {
                &&& check_fault(codex_bin@, success, status@, stdout@, complaint@) is None
                &&& version@ == SUPPORTED_CODEX_VERSION@
            },
            Err(failure) => check_fault(
                codex_bin@,
                success,
                status@,
                stdout@,
                complaint@,
            ) matches Some(fault) && failure@ == seq![fault],
        },
{
    if !success {
        let mut message = concat5("`", codex_bin, "` --version exited with ", status, ": ");
        message.append(trim(complaint));
        return Err(Failure::of(message));
    }
    match read_utf8(stdout) {
        Ok(text) => parse_supported_codex_version(text.as_str()),
        Err(_) => Err(Failure::of(concat3("`", codex_bin, "` --version output was not UTF-8"))),
    }
}

/// The runtime that a version check vouches for. The two normalized paths are those of the
/// binary and of the one that Codex manages, as the file system knows them.
pub fn resolve_codex_runtime(
    codex_bin: String,
    codex_home: String,
    output: VersionOutput,
    normalized_bin: &str,
    normalized_standalone: &str,
) -> (runtime: Result<CodexRuntime, Failure>)
    ensures
        ({
            let fault = check_fault(
                codex_bin@,
                output.success,
                output.status@,
                output.stdout@,
                lossy_text(output.stderr@),
            );
            match runtime {
                Ok(runtime) => {
                    &&& fault is None
                    &&& runtime.codex_bin@ == codex_bin@
                    &&& runtime.codex_home@ == codex_home@
                    &&& runtime.version@ == SUPPORTED_CODEX_VERSION@
                    &&& runtime.standalone_managed == is_same_path(
                        normalized_bin@,
                        normalized_standalone@,
                    )
                },
                Err(failure) => fault matches Some(fault) && failure@ == seq![fault],
            }
        }),
{
    let complaint = read_lossy(output.stderr.as_slice());
    match judge_version(
        codex_bin.as_str(),
        output.success,
        output.status.as_str(),
        output.stdout,
        complaint.as_str(),
    ) {
        Ok(version) => {
            let standalone_managed = same_path(normalized_bin, normalized_standalone);
            Ok(CodexRuntime { codex_bin, codex_home, version, standalone_managed })
        },
        Err(failure) => Err(failure),
    }
}

/// Nothing stands in for a binary that was configured: what else there is has no bearing on
/// the choice.
pub proof fn law_configured_binary_has_no_stand_in(
    explicit: Candidate,
    standalone: Candidate,
    other_standalone: Candidate,
    on_path: Option<Seq<Candidate>>,
    other_on_path: Option<Seq<Candidate>>,
)
    ensures
        resolved_binary(Some(explicit), standalone, on_path) == resolved_binary(
            Some(explicit),
            other_standalone,
            other_on_path,
        ),
{
}

} // verus!
