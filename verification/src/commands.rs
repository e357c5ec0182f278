//! What the arena programs decide about each request they read: which
//! command a method names, when a command may run, and how a refusal is
//! answered.

use vstd::prelude::*;

use crate::gm_protocol::{
    METHOD_APPLY_DECISION_RESULTS, METHOD_CURRENT_EXPORTED_SNAPSHOT, METHOD_CURRENT_RESULT,
    METHOD_CURRENT_SNAPSHOT, METHOD_INITIALIZE_MATCH, METHOD_METADATA, METHOD_NEXT_DECISION_STEP,
    METHOD_NORMALIZE_ACTION, METHOD_SHUTDOWN,
};
use crate::player_protocol::{METHOD_GAME_OVER, METHOD_INIT, METHOD_TURN};
use crate::protocol::{ErrorObject, Request, Response, JSONRPC_VERSION};
use crate::text::{push_str, same_text, string_from};

verus! {

/// The error code of every refused game-master request.
pub const GM_ERROR_CODE: i32 = -32000;

/// The id of the answer to `shutdown`; the game master stops after sending it.
pub const SHUTDOWN_RESPONSE_ID: &'static str = "__shutdown__";

/// What the game master and the fixture players answer to a method they do
/// not know, before the name.
pub const UNSUPPORTED_METHOD: &'static str = "unsupported method ";

/// What the game master answers to a match command before `initialize_match`.
pub const MATCH_NOT_INITIALIZED: &'static str = "match is not initialized";

/// The requests the game master serves.
#[derive(Debug, Clone, Copy, PartialEq, Eq, Structural)]
pub enum GmCommand {
    Metadata,
    InitializeMatch,
    NextDecisionStep,
    NormalizeAction,
    ApplyDecisionResults,
    CurrentSnapshot,
    CurrentExportedSnapshot,
    CurrentResult,
    Shutdown,
}

/// The command a game-master method name stands for.
pub open spec fn spec_gm_command(method: Seq<char>) -> Option<GmCommand> {
    if method == METHOD_METADATA@ {
        Some(GmCommand::Metadata)
    } else if method == METHOD_INITIALIZE_MATCH@ {
        Some(GmCommand::InitializeMatch)
    } else if method == METHOD_NEXT_DECISION_STEP@ {
        Some(GmCommand::NextDecisionStep)
    } else if method == METHOD_NORMALIZE_ACTION@ {
        Some(GmCommand::NormalizeAction)
    } else if method == METHOD_APPLY_DECISION_RESULTS@ {
        Some(GmCommand::ApplyDecisionResults)
    } else if method == METHOD_CURRENT_SNAPSHOT@ {
        Some(GmCommand::CurrentSnapshot)
    } else if method == METHOD_CURRENT_EXPORTED_SNAPSHOT@ {
        Some(GmCommand::CurrentExportedSnapshot)
    } else if method == METHOD_CURRENT_RESULT@ {
        Some(GmCommand::CurrentResult)
    } else if method == METHOD_SHUTDOWN@ {
        Some(GmCommand::Shutdown)
    } else {
        None
    }
}

impl GmCommand {
    /// Whether the command works on a match, so that one must have been
    /// initialized before it.
    pub open spec fn spec_needs_match(self) -> bool {
        !(self is Metadata || self is InitializeMatch || self is Shutdown)
    }

    /// Whether the command works on a match.
    pub fn needs_match(self) -> (b: bool)
        ensures
            b == self.spec_needs_match(),
    {
        match self {
            GmCommand::Metadata | GmCommand::InitializeMatch | GmCommand::Shutdown => false,
            _ => true,
        }
    }
}

/// The command for a game-master method, or the refusal of an unknown one.
pub fn gm_command_for(method: &str) -> (r: Result<GmCommand, String>)
    ensures
        match spec_gm_command(method@) {
            Some(c) => r == Ok::<GmCommand, String>(c),
            None => r matches Err(m) && m@ == UNSUPPORTED_METHOD@ + method@,
        },
{
    if same_text(method, METHOD_METADATA) {
        Ok(GmCommand::Metadata)
    } else if same_text(method, METHOD_INITIALIZE_MATCH) {
        Ok(GmCommand::InitializeMatch)
    } else if same_text(method, METHOD_NEXT_DECISION_STEP) {
        Ok(GmCommand::NextDecisionStep)
    } else if same_text(method, METHOD_NORMALIZE_ACTION) {
        Ok(GmCommand::NormalizeAction)
    } else if same_text(method, METHOD_APPLY_DECISION_RESULTS) {
        Ok(GmCommand::ApplyDecisionResults)
    } else if same_text(method, METHOD_CURRENT_SNAPSHOT) {
        Ok(GmCommand::CurrentSnapshot)
    } else if same_text(method, METHOD_CURRENT_EXPORTED_SNAPSHOT) {
        Ok(GmCommand::CurrentExportedSnapshot)
    } else if same_text(method, METHOD_CURRENT_RESULT) {
        Ok(GmCommand::CurrentResult)
    } else if same_text(method, METHOD_SHUTDOWN) {
        Ok(GmCommand::Shutdown)
    } else {
        let mut m = string_from(UNSUPPORTED_METHOD);
        push_str(&mut m, method);
        Err(m)
    }
}

/// Refuses a match command while no match has been initialized.
pub fn check_match_ready(command: GmCommand, has_match: bool) -> (r: Result<(), String>)
    ensures
        r is Ok <==> (!command.spec_needs_match() || has_match),
        r matches Err(m) ==> m@ == MATCH_NOT_INITIALIZED@,
{
    if command.needs_match() && !has_match {
        Err(string_from(MATCH_NOT_INITIALIZED))
    } else {
        Ok(())
    }
}

/// The id a game-master answer carries: the request's, or empty for a
/// notification.
pub fn request_id_or_empty(request: &Request) -> (id: String)
    ensures
        id@ == (match request.id {
            Some(i) => i@,
            None => Seq::<char>::empty(),
        }),
{
    match &request.id {
        Some(i) => i.clone(),
        None => {
            proof {
                reveal_strlit("");
            }
            string_from("")
        },
    }
}

/// The game master's answer to a refused request.
pub fn gm_error_response(id: String, message: String) -> (r: Response)
    ensures
        r.jsonrpc@ == JSONRPC_VERSION@,
        r.id == id,
        r.result is None,
        r.error == Some(ErrorObject { code: GM_ERROR_CODE, message }),
{
    Response {
        jsonrpc: string_from(JSONRPC_VERSION),
        id,
        result: None,
        error: Some(ErrorObject { code: GM_ERROR_CODE, message }),
    }
}

/// The game master's answer to `shutdown`, carrying `ok` as its result.
pub fn shutdown_response(ok: serde_json::Value) -> (r: Response)
    ensures
        r.jsonrpc@ == JSONRPC_VERSION@,
        r.id@ == SHUTDOWN_RESPONSE_ID@,
        r.result == Some(ok),
        r.error is None,
{
    Response {
        jsonrpc: string_from(JSONRPC_VERSION),
        id: string_from(SHUTDOWN_RESPONSE_ID),
        result: Some(ok),
        error: None,
    }
}

/// Whether an answer is the last one the game master sends.
pub fn is_shutdown_response(response: &Response) -> (b: bool)
    ensures
        b == (response.id@ == SHUTDOWN_RESPONSE_ID@),
{
    same_text(response.id.as_str(), SHUTDOWN_RESPONSE_ID)
}

/// What a player answers to a method it does not know, before the name.
pub const UNSUPPORTED_PLAYER_METHOD: &'static str = "unsupported method: ";

/// The requests a player serves.
#[derive(Debug, Clone, Copy, PartialEq, Eq, Structural)]
pub enum PlayerCommand {
    Init,
    Turn,
    GameOver,
}

/// The command a player method name stands for.
pub open spec fn spec_player_command(method: Seq<char>) -> Option<PlayerCommand> {
    if method == METHOD_INIT@ {
        Some(PlayerCommand::Init)
    } else if method == METHOD_TURN@ {
        Some(PlayerCommand::Turn)
    } else if method == METHOD_GAME_OVER@ {
        Some(PlayerCommand::GameOver)
    } else {
        None
    }
}

/// The command for a player method, or the refusal of an unknown one.
pub fn player_command_for(method: &str) -> (r: Result<PlayerCommand, String>)
    ensures
        match spec_player_command(method@) {
            Some(c) => r == Ok::<PlayerCommand, String>(c),
            None => r matches Err(m) && m@ == UNSUPPORTED_PLAYER_METHOD@ + method@,
        },
{
    if same_text(method, METHOD_INIT) {
        Ok(PlayerCommand::Init)
    } else if same_text(method, METHOD_TURN) {
        Ok(PlayerCommand::Turn)
    } else if same_text(method, METHOD_GAME_OVER) {
        Ok(PlayerCommand::GameOver)
    } else {
        let mut m = string_from(UNSUPPORTED_PLAYER_METHOD);
        push_str(&mut m, method);
        Err(m)
    }
}

/// The id a player must answer under; a request without one is refused,
/// naming its method.
pub fn player_request_id(request: &Request) -> (r: Result<String, String>)
    ensures
        match request.id {
            Some(i) => r matches Ok(id) && id@ == i@,
            None => r matches Err(m) && m@ == "request "@ + request.method@ + " is missing an id"@,
        },
{
    match &request.id {
        Some(i) => Ok(i.clone()),
        None => {
            let mut m = string_from("request ");
            push_str(&mut m, request.method.as_str());
            push_str(&mut m, " is missing an id");
            Err(m)
        },
    }
}

/// The command for a method a fixture player receives, or the refusal of
/// an unknown one.
pub fn fixture_command_for(method: &str) -> (r: Result<PlayerCommand, String>)
    ensures
        match spec_player_command(method@) {
            Some(c) => r == Ok::<PlayerCommand, String>(c),
            None => r matches Err(m) && m@ == UNSUPPORTED_METHOD@ + method@,
        },
{
    match player_command_for(method) {
        Ok(c) => Ok(c),
        Err(_) => {
            let mut m = string_from(UNSUPPORTED_METHOD);
            push_str(&mut m, method);
            Err(m)
        },
    }
}

/// What the scripted player says when it is not called as
/// `--moves <sequence>`.
pub const SCRIPTED_USAGE: &'static str = "expected --moves <sequence>";

/// The move sequence the scripted player is called with: the argument after
/// a leading `--moves`; later arguments are ignored.
pub fn scripted_moves_arg(args: &Vec<String>) -> (r: Result<String, String>)
    ensures
        if args@.len() >= 2 && args@[0]@ == "--moves"@ {
            r matches Ok(m) && m@ == args@[1]@
        } else {
            r matches Err(e) && e@ == SCRIPTED_USAGE@
        },
{
    if args.len() >= 2 && same_text(args[0].as_str(), "--moves") {
        Ok(args[1].clone())
    } else {
        Err(string_from(SCRIPTED_USAGE))
    }
}

/// How the transcript exporter is called.
pub const EXPORT_USAGE: &'static str = "usage: reversi-kifu-export [--include-pass] <artifact-dir>";

/// What the transcript exporter was asked for.
#[derive(Debug, Clone, PartialEq, Eq)]
pub struct ExportArgs {
    pub include_pass: bool,
    pub input_dir: String,
}

/// Whether an argument is an option: it starts with `-`.
pub open spec fn is_option(a: Seq<char>) -> bool {
    a.len() > 0 && a[0] == '-'
}

/// The exporter's reading of `args[i..]`, having seen `include_pass` and
/// `input` so far: the pass flag and the one directory, or the message it
/// stops with. `--help` and `-h` stop with the usage.
pub open spec fn export_args_from(
    args: Seq<String>,
    i: nat,
    include_pass: bool,
    input: Option<Seq<char>>,
) -> Result<(bool, Seq<char>), Seq<char>>
    decreases args.len() - i,
{
    if i >= args.len() {
        match input {
            Some(d) => Ok((include_pass, d)),
            None => Err(EXPORT_USAGE@),
        }
    } else {
        let a = args[i as int]@;
        if a == "--include-pass"@ {
            export_args_from(args, i + 1, true, input)
        } else if a == "--help"@ || a == "-h"@ {
            Err(EXPORT_USAGE@)
        } else if is_option(a) {
            Err("unsupported option "@ + a + "\n\n"@ + EXPORT_USAGE@)
        } else if input is Some {
            Err("expected one artifact directory\n\n"@ + EXPORT_USAGE@)
        } else {
            export_args_from(args, i + 1, include_pass, Some(a))
        }
    }
}

fn starts_with_dash(a: &str) -> (b: bool)
    ensures
        b == is_option(a@),
{
    a.unicode_len() > 0 && a.get_char(0) == '-'
}

/// Reads the exporter's arguments: `--include-pass` and exactly one
/// artifact directory.
pub fn parse_export_args(args: &Vec<String>) -> (r: Result<ExportArgs, String>)
    ensures
        match export_args_from(args@, 0, false, None) {
            Ok((p, d)) => r matches Ok(a) && a.include_pass == p && a.input_dir@ == d,
            Err(m) => r matches Err(e) && e@ == m,
        },
{
    let mut include_pass = false;
    let mut input_dir: Option<String> = None;
    let mut i: usize = 0;
    while i < args.len()
        invariant
            i <= args.len(),
            export_args_from(args@, 0, false, None) == export_args_from(
                args@,
                i as nat,
                include_pass,
                match input_dir {
                    Some(d) => Some(d@),
                    None => None,
                },
            ),
        decreases args.len() - i,
    {
        let a = args[i].as_str();
        if same_text(a, "--include-pass") {
            include_pass = true;
        } else if same_text(a, "--help") || same_text(a, "-h") {
            return Err(string_from(EXPORT_USAGE));
        } else if starts_with_dash(a) {
            let mut m = string_from("unsupported option ");
            push_str(&mut m, a);
            push_str(&mut m, "\n\n");
            push_str(&mut m, EXPORT_USAGE);
            return Err(m);
        } else if input_dir.is_some() {
            let mut m = string_from("expected one artifact directory\n\n");
            push_str(&mut m, EXPORT_USAGE);
            return Err(m);
        } else {
            input_dir = Some(args[i].clone());
        }
        i = i + 1;
    }
    match input_dir {
        Some(d) => Ok(ExportArgs { include_pass, input_dir: d }),
        None => Err(string_from(EXPORT_USAGE)),
    }
}

} // verus!
