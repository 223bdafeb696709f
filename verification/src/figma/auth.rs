//! Figma personal access tokens.
//!
//! The MCP server needs a Figma PAT (`figd_…` or `figpat_…`). Precedence,
//! highest first: the `CODEDESIGN_FIGMA_TOKEN` variable, the
//! `FIGMA_ACCESS_TOKEN` variable, then the `figma.access_token` field of
//! `~/.codedesign/auth.toml`. The caller reads and writes that file; this
//! module decides which token wins and whether it is plausible.

use vstd::prelude::*;
use crate::ds::design_system::{join_path, path_join};
use crate::figma::error::McpError;
use crate::json::Json;
use crate::text::{keyed, push_str, starts_with, str_starts_with, to_owned, trim, trim_string};

verus! {

pub const ENV_PRIMARY: &'static str = "CODEDESIGN_FIGMA_TOKEN";

pub const ENV_FALLBACK: &'static str = "FIGMA_ACCESS_TOKEN";

/// Where the auth file lives, relative to the home directory.
pub const AUTH_FILE_REL: &'static str = ".codedesign/auth.toml";

/// The auth file's contents: the `[figma]` table, and every other
/// top-level entry of the file, kept as it was read.
#[derive(Debug)]
pub struct AuthFile {
    pub figma: FigmaAuth,
    pub others: Vec<(String, Json)>,
}

/// The `[figma]` table: the token, and every other entry of the table.
#[derive(Debug)]
pub struct FigmaAuth {
    /// The Figma PAT; none means not yet configured.
    pub access_token: Option<String>,
    pub others: Vec<(String, Json)>,
}

impl Default for FigmaAuth {
    fn default() -> (r: FigmaAuth)
        ensures
            r.access_token is None,
            r.others@.len() == 0,
    {
        FigmaAuth { access_token: None, others: Vec::new() }
    }
}

impl Default for AuthFile {
    fn default() -> (r: AuthFile)
        ensures
            r.figma.access_token is None,
            r.figma.others@.len() == 0,
            r.others@.len() == 0,
    {
        AuthFile { figma: FigmaAuth::default(), others: Vec::new() }
    }
}

// ── specification ──────────────────────────────────────────────────────────

/// Why a token is implausible, if it is.
pub open spec fn pat_problem(token: Seq<char>) -> Option<Seq<char>> {
    let t = trim(token);
    if t.len() == 0 {
        Some("empty Figma token"@)
    } else if !starts_with(t, "figd_"@) && !starts_with(t, "figpat_"@) {
        Some("Figma PAT should start with `figd_` or `figpat_`"@)
    } else {
        None
    }
}

/// The token an environment variable gives, when it is set and not empty.
pub open spec fn env_token(env: Seq<(String, String)>, name: Seq<char>) -> Option<Seq<char>> {
    match keyed(env, name) {
        Some(v) if v@.len() > 0 => Some(v@),
        _ => None,
    }
}

/// The auth file's path under a home directory.
pub open spec fn auth_path(home: Option<Seq<char>>) -> Result<Seq<char>, Seq<char>> {
    match home {
        Some(h) => Ok(path_join(h, AUTH_FILE_REL@)),
        None => Err("HOME env var not set; cannot locate ~/.codedesign"@),
    }
}

/// The message when no token is configured anywhere.
pub open spec fn missing_token_message(path: Seq<char>) -> Seq<char> {
    "no Figma access token found. set CODEDESIGN_FIGMA_TOKEN or run `codedesign doctor` to save one to "@
        + path
}

/// How resolving the token ends.
pub enum TokenOutcome {
    /// This token wins.
    Token(Seq<char>),
    /// No usable token: the auth error's message.
    Refused(Seq<char>),
    /// Reading the auth file failed; its error is passed on.
    FileFailed,
}

/// The outcome of a checked token.
pub open spec fn outcome_of(t: Seq<char>) -> TokenOutcome {
    match pat_problem(t) {
        Some(why) => TokenOutcome::Refused(why),
        None => TokenOutcome::Token(t),
    }
}

/// Which token wins: the environment first (a set variable's token must
/// be plausible), then the auth file under `HOME` (whose reading the caller
/// reports in `file`: none when there is no file, `Err` when reading it
/// failed), else a "not found" message naming the auth file's path.
pub open spec fn token_outcome(env: Seq<(String, String)>, file: Option<Result<Option<Seq<char>>, ()>>) -> TokenOutcome {
    match env_token(env, ENV_PRIMARY@) {
        Some(t) => outcome_of(t),
        None => match env_token(env, ENV_FALLBACK@) {
            Some(t) => outcome_of(t),
            None => match auth_path(
                match keyed(env, "HOME"@) {
                    Some(h) => Some(h@),
                    None => None,
                },
            ) {
                Err(e) => TokenOutcome::Refused(e),
                Ok(path) => match file {
                    Some(Err(_)) => TokenOutcome::FileFailed,
                    Some(Ok(Some(t))) if t.len() > 0 => outcome_of(t),
                    _ => TokenOutcome::Refused(missing_token_message(path)),
                },
            },
        },
    }
}

/// What the caller reported of the auth file, as texts.
pub open spec fn file_report(file: Option<Result<Option<String>, McpError>>) -> Option<Result<Option<Seq<char>>, ()>> {
    match file {
        None => None,
        Some(Ok(Some(s))) => Some(Ok(Some(s@))),
        Some(Ok(None)) => Some(Ok(None)),
        Some(Err(_)) => Some(Err(())),
    }
}

// ── implementation ─────────────────────────────────────────────────────────

/// A surface check of a PAT: not blank, and `figd_` or `figpat_` once
/// trimmed. Figma's API does the real validation; this catches paste
/// errors.
pub fn validate_pat(token: &str) -> (r: Result<(), McpError>)
    ensures
        match pat_problem(token@) {
            None => r is Ok,
            Some(why) => r matches Err(McpError::Auth(m)) && m@ == why,
        },
{
    let t = trim_string(token);
    if t.as_str().is_empty() {
        return Err(McpError::Auth(to_owned("empty Figma token")));
    }
    if !str_starts_with(t.as_str(), "figd_") && !str_starts_with(t.as_str(), "figpat_") {
        return Err(McpError::Auth(to_owned("Figma PAT should start with `figd_` or `figpat_`")));
    }
    Ok(())
}

/// The auth file's path under the home directory, if the home is known.
pub fn auth_file_path(home: Option<&str>) -> (r: Result<String, McpError>)
    ensures
        match auth_path(
            match home {
                Some(h) => Some(h@),
                None => None,
            },
        ) {
            Ok(p) => r matches Ok(s) && s@ == p,
            Err(m) => r matches Err(McpError::Auth(e)) && e@ == m,
        },
{
    match home {
        Some(h) => Ok(join_path(h, AUTH_FILE_REL)),
        None => Err(McpError::Auth(to_owned("HOME env var not set; cannot locate ~/.codedesign"))),
    }
}

fn checked(t: String) -> (r: Result<String, McpError>)
    ensures
        match outcome_of(t@) {
            TokenOutcome::Token(s) => r matches Ok(u) && u@ == s,
            TokenOutcome::Refused(m) => r matches Err(McpError::Auth(e)) && e@ == m,
            TokenOutcome::FileFailed => false,
        },
{
    match validate_pat(t.as_str()) {
        Ok(()) => Ok(t),
        Err(e) => Err(e),
    }
}

fn env_value(env: &Vec<(String, String)>, name: &str) -> (r: Option<String>)
    ensures
        match env_token(env@, name@) {
            Some(v) => r matches Some(s) && s@ == v,
            None => r is None,
        },
{
    match crate::text::find_keyed(env, name) {
        Some(v) => {
            if v.as_str().is_empty() {
                None
            } else {
                Some(v.clone())
            }
        },
        None => None,
    }
}

/// Resolves the Figma token: `env` holds the environment's variables as
/// name/value pairs, and `file` what reading the auth file gave (none
/// when the file does not exist; the file's token, or the read or decode
/// error, otherwise).
pub fn load_figma_token(env: &Vec<(String, String)>, file: Option<Result<Option<String>, McpError>>) -> (r: Result<String, McpError>)
    ensures
        match token_outcome(env@, file_report(file)) {
            TokenOutcome::Token(t) => r matches Ok(s) && s@ == t,
            TokenOutcome::Refused(m) => r matches Err(McpError::Auth(e)) && e@ == m,
            TokenOutcome::FileFailed => file matches Some(Err(e)) && r == Err::<String, McpError>(e),
        },
{
    if let Some(t) = env_value(env, ENV_PRIMARY) {
        return checked(t);
    }
    if let Some(t) = env_value(env, ENV_FALLBACK) {
        return checked(t);
    }
    let home = match crate::text::find_keyed(env, "HOME") {
        Some(h) => Some(h.as_str()),
        None => None,
    };
    let path = auth_file_path(home)?;
    match file {
        Some(Err(e)) => Err(e),
        Some(Ok(Some(t))) if !t.as_str().is_empty() => checked(t),
        _ => {
            let mut m = to_owned(
                "no Figma access token found. set CODEDESIGN_FIGMA_TOKEN or run `codedesign doctor` to save one to ",
            );
            push_str(&mut m, path.as_str());
            Err(McpError::Auth(m))
        },
    }
}

/// The auth file to write when saving a token: the existing file's
/// contents (or the default when there is none, or it could not be
/// decoded) with the token set; every other entry, in the `[figma]` table
/// and outside it, stays as it was.
pub fn with_token(existing: Option<AuthFile>, token: &str) -> (r: AuthFile)
    ensures
        r.figma.access_token matches Some(t) && t@ == token@,
        match existing {
            Some(af) => r.others == af.others && r.figma.others == af.figma.others,
            None => r.others@.len() == 0 && r.figma.others@.len() == 0,
        },
{
    let mut af = match existing {
        Some(af) => af,
        None => AuthFile::default(),
    };
    af.figma.access_token = Some(to_owned(token));
    af
}

} // verus!
