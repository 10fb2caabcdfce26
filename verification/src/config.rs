use vstd::prelude::*;
use vstd::utf8::*;

use crate::paths::{join_path, joined_path};
use crate::text::{concat3, text_view};

verus! {

/// How many bytes the path of a Unix socket may have on every platform.
pub const MAX_UNIX_SOCKET_PATH_BYTES: usize = 103;

/// Where an app-server listens.
#[derive(Debug)]
pub enum Endpoint {
    Unix { path: String },
    WebSocket { url: String, auth_token: Option<String> },
}

/// The app-server that a command is for.
#[derive(Debug)]
pub struct Target {
    pub server: String,
    pub endpoint: Endpoint,
    pub model: Option<String>,
    pub model_reasoning_effort: Option<String>,
}

/// The text of an endpoint.
pub open spec fn endpoint_text(endpoint: Endpoint) -> Seq<char> {
    match endpoint {
        Endpoint::Unix { path } => "unix://"@ + path@,
        Endpoint::WebSocket { url, .. } => url@,
    }
}

impl Endpoint {
    pub fn display(&self) -> (text: String)
        ensures
            text@ == endpoint_text(*self),
    {
        match self {
            Endpoint::Unix { path } => {
                let mut text = "unix://".to_owned();
                text.append(path.as_str());
                text
            },
            Endpoint::WebSocket { url, .. } => url.clone(),
        }
    }
}

/// The configuration file: the one that a flag names, else the one that the environment
/// names, else the one in the user's configuration directory.
pub open spec fn config_path(
    flag: Option<Seq<char>>,
    environment: Option<Seq<char>>,
    home: Seq<char>,
) -> Seq<char> {
    match (flag, environment) {
        (Some(path), _) => path,
        (None, Some(path)) => path,
        (None, None) => joined_path(home, ".config/codex-tamer/config.toml"@),
    }
}

pub fn resolve_config_path_from(
    flag: Option<String>,
    environment: Option<&str>,
    home: &str,
) -> (path: String)
    ensures
        path@ == config_path(text_view(flag), crate::text::slice_view(environment), home@),
{
    match flag {
        Some(path) => path,
        None => match environment {
            Some(path) => path.to_owned(),
            None => join_path(home, ".config/codex-tamer/config.toml"),
        },
    }
}

/// What a socket path that is too long is refused with.
pub open spec fn socket_path_message(path: Seq<char>) -> Seq<char> {
    "managed Unix socket path `"@ + path
        + "` is longer than 103 bytes; use a shorter runtime directory"@
}

/// Refuses a socket path that some platform cannot bind.
pub fn validate_managed_socket_path(path: &str) -> (valid: Result<(), String>)
    ensures
        match valid {
            Ok(()) => encode_utf8(path@).len() <= MAX_UNIX_SOCKET_PATH_BYTES,
            Err(message) => encode_utf8(path@).len() > MAX_UNIX_SOCKET_PATH_BYTES && message@
                == socket_path_message(path@),
        },
{
    if path.as_bytes().len() > MAX_UNIX_SOCKET_PATH_BYTES {
        return Err(
            concat3(
                "managed Unix socket path `",
                path,
                "` is longer than 103 bytes; use a shorter runtime directory",
            ),
        );
    }
    Ok(())
}

} // verus!
