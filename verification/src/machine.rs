use vstd::prelude::*;
use crate::errors::{CliError, SpecError};
use crate::json::{spec_parse, parse_json, MAX_INPUT};
use crate::model::{spec_decode_resource, spec_decode_search_list, decode_resource,
    decode_search_list};
use crate::render::{render_login, render_ls, render_info, render_search, spec_render_login,
    spec_render_ls, spec_render_info, spec_render_search};
use crate::text::{append_bytes, copy_bytes, text, text_bytes};

verus! {

/// A parsed command-line invocation, one subcommand with its arguments.
/// For `login` the password has already been resolved (prompted for by the
/// shell if it was not given on the command line).
pub enum Command {
    Login { server: Vec<u8>, username: Vec<u8>, password: Vec<u8> },
    Ls { path: Vec<u8> },
    Info { path: Vec<u8> },
    Get { remote_path: Vec<u8>, local_path: Option<Vec<u8>> },
    Put { local_path: Vec<u8>, remote_path: Vec<u8>, force: bool },
    Rm { path: Vec<u8> },
    Mv { source: Vec<u8>, destination: Vec<u8>, force: bool },
    Cp { source: Vec<u8>, destination: Vec<u8>, force: bool },
    Mkdir { path: Vec<u8> },
    Search { query: Vec<u8>, path: Vec<u8> },
}

/// The mathematical value of a `Command`.
pub enum SpecCommand {
    Login { server: Seq<u8>, username: Seq<u8>, password: Seq<u8> },
    Ls { path: Seq<u8> },
    Info { path: Seq<u8> },
    Get { remote_path: Seq<u8>, local_path: Option<Seq<u8>> },
    Put { local_path: Seq<u8>, remote_path: Seq<u8>, force: bool },
    Rm { path: Seq<u8> },
    Mv { source: Seq<u8>, destination: Seq<u8>, force: bool },
    Cp { source: Seq<u8>, destination: Seq<u8>, force: bool },
    Mkdir { path: Seq<u8> },
    Search { query: Seq<u8>, path: Seq<u8> },
}

/// The view of an optional byte vector.
pub open spec fn opt_view(o: Option<Vec<u8>>) -> Option<Seq<u8>> {
    match o {
        Option::Some(v) => Some(v@),
        Option::None => None,
    }
}

impl Command {
    /// The mathematical value of this command.
    pub open spec fn deep(&self) -> SpecCommand {
        match self {
            Command::Login { server, username, password } => SpecCommand::Login {
                server: server@,
                username: username@,
                password: password@,
            },
            Command::Ls { path } => SpecCommand::Ls { path: path@ },
            Command::Info { path } => SpecCommand::Info { path: path@ },
            Command::Get { remote_path, local_path } => SpecCommand::Get {
                remote_path: remote_path@,
                local_path: opt_view(*local_path),
            },
            Command::Put { local_path, remote_path, force } => SpecCommand::Put {
                local_path: local_path@,
                remote_path: remote_path@,
                force: *force,
            },
            Command::Rm { path } => SpecCommand::Rm { path: path@ },
            Command::Mv { source, destination, force } => SpecCommand::Mv {
                source: source@,
                destination: destination@,
                force: *force,
            },
            Command::Cp { source, destination, force } => SpecCommand::Cp {
                source: source@,
                destination: destination@,
                force: *force,
            },
            Command::Mkdir { path } => SpecCommand::Mkdir { path: path@ },
            Command::Search { query, path } => SpecCommand::Search { query: query@, path: path@ },
        }
    }
}

/// One primitive call on the native boundary, with its arguments.
pub enum BoundaryOp {
    Create { url: Vec<u8> },
    SetToken { token: Vec<u8> },
    Login { username: Vec<u8>, password: Vec<u8> },
    GetResource { path: Vec<u8> },
    ListDirectory { path: Vec<u8> },
    Search { query: Vec<u8>, path: Vec<u8> },
    Download { remote: Vec<u8>, local: Vec<u8> },
    Upload { remote: Vec<u8>, local: Vec<u8>, overwrite: bool },
    CreateDirectory { path: Vec<u8> },
    Delete { path: Vec<u8> },
    Rename { source: Vec<u8>, destination: Vec<u8>, overwrite: bool },
    Copy { source: Vec<u8>, destination: Vec<u8>, overwrite: bool },
    GetLastError,
    Destroy,
}

/// The mathematical value of a `BoundaryOp`.
pub enum SpecOp {
    Create { url: Seq<u8> },
    SetToken { token: Seq<u8> },
    Login { username: Seq<u8>, password: Seq<u8> },
    GetResource { path: Seq<u8> },
    ListDirectory { path: Seq<u8> },
    Search { query: Seq<u8>, path: Seq<u8> },
    Download { remote: Seq<u8>, local: Seq<u8> },
    Upload { remote: Seq<u8>, local: Seq<u8>, overwrite: bool },
    CreateDirectory { path: Seq<u8> },
    Delete { path: Seq<u8> },
    Rename { source: Seq<u8>, destination: Seq<u8>, overwrite: bool },
    Copy { source: Seq<u8>, destination: Seq<u8>, overwrite: bool },
    GetLastError,
    Destroy,
}

impl BoundaryOp {
    /// The mathematical value of this operation.
    pub open spec fn deep(&self) -> SpecOp {
        match self {
            BoundaryOp::Create { url } => SpecOp::Create { url: url@ },
            BoundaryOp::SetToken { token } => SpecOp::SetToken { token: token@ },
            BoundaryOp::Login { username, password } => SpecOp::Login {
                username: username@,
                password: password@,
            },
            BoundaryOp::GetResource { path } => SpecOp::GetResource { path: path@ },
            BoundaryOp::ListDirectory { path } => SpecOp::ListDirectory { path: path@ },
            BoundaryOp::Search { query, path } => SpecOp::Search { query: query@, path: path@ },
            BoundaryOp::Download { remote, local } => SpecOp::Download {
                remote: remote@,
                local: local@,
            },
            BoundaryOp::Upload { remote, local, overwrite } => SpecOp::Upload {
                remote: remote@,
                local: local@,
                overwrite: *overwrite,
            },
            BoundaryOp::CreateDirectory { path } => SpecOp::CreateDirectory { path: path@ },
            BoundaryOp::Delete { path } => SpecOp::Delete { path: path@ },
            BoundaryOp::Rename { source, destination, overwrite } => SpecOp::Rename {
                source: source@,
                destination: destination@,
                overwrite: *overwrite,
            },
            BoundaryOp::Copy { source, destination, overwrite } => SpecOp::Copy {
                source: source@,
                destination: destination@,
                overwrite: *overwrite,
            },
            BoundaryOp::GetLastError => SpecOp::GetLastError,
            BoundaryOp::Destroy => SpecOp::Destroy,
        }
    }
}

/// What the shell reports back after performing a boundary operation.
/// `Text` answers the four calls that return a string or null (null
/// signalling failure); `Flag` answers the boolean calls (false signalling
/// failure) and the token-setting call, whose flag the client ignores;
/// `ErrorText` answers a last-error read; `Done` answers handle creation
/// and destruction; `TaskFailed` reports that the worker running an
/// offloaded call did not complete.
pub enum BoundaryEvent {
    Done,
    Text { value: Option<Vec<u8>> },
    Flag { ok: bool },
    ErrorText { value: Option<Vec<u8>> },
    TaskFailed { message: Vec<u8> },
}

/// The mathematical value of a `BoundaryEvent`.
pub enum SpecEvent {
    Done,
    Text { value: Option<Seq<u8>> },
    Flag { ok: bool },
    ErrorText { value: Option<Seq<u8>> },
    TaskFailed { message: Seq<u8> },
}

impl BoundaryEvent {
    /// The mathematical value of this event.
    pub open spec fn deep(&self) -> SpecEvent {
        match self {
            BoundaryEvent::Done => SpecEvent::Done,
            BoundaryEvent::Text { value } => SpecEvent::Text { value: opt_view(*value) },
            BoundaryEvent::Flag { ok } => SpecEvent::Flag { ok: *ok },
            BoundaryEvent::ErrorText { value } => SpecEvent::ErrorText { value: opt_view(*value) },
            BoundaryEvent::TaskFailed { message } => SpecEvent::TaskFailed { message: message@ },
        }
    }
}

/// Where an invocation stands: which boundary call is outstanding, or the
/// outcome once the handle is being destroyed, or that it is finished.
pub enum Phase {
    AwaitCreate,
    AwaitToken,
    AwaitLogin,
    AwaitOp,
    AwaitError { auth: bool },
    AwaitCleanup { outcome: Result<Vec<u8>, CliError> },
    Finished,
}

/// The mathematical value of a `Phase`.
pub enum SpecPhase {
    AwaitCreate,
    AwaitToken,
    AwaitLogin,
    AwaitOp,
    AwaitError { auth: bool },
    AwaitCleanup { outcome: Result<Seq<u8>, SpecError> },
    Finished,
}

/// The mathematical value of an outcome.
pub open spec fn deep_outcome(o: Result<Vec<u8>, CliError>) -> Result<Seq<u8>, SpecError> {
    match o {
        Result::Ok(v) => Ok(v@),
        Result::Err(e) => Err(e.deep()),
    }
}

impl Phase {
    /// The mathematical value of this phase.
    pub open spec fn deep(&self) -> SpecPhase {
        match self {
            Phase::AwaitCreate => SpecPhase::AwaitCreate,
            Phase::AwaitToken => SpecPhase::AwaitToken,
            Phase::AwaitLogin => SpecPhase::AwaitLogin,
            Phase::AwaitOp => SpecPhase::AwaitOp,
            Phase::AwaitError { auth } => SpecPhase::AwaitError { auth: *auth },
            Phase::AwaitCleanup { outcome } => SpecPhase::AwaitCleanup {
                outcome: deep_outcome(*outcome),
            },
            Phase::Finished => SpecPhase::Finished,
        }
    }
}

/// The state machine of one invocation: the command being run, the token
/// to present (for the non-login commands), and the current phase.
pub struct Machine {
    pub cmd: Command,
    pub token: Option<Vec<u8>>,
    pub phase: Phase,
}

/// The mathematical value of a `Machine`.
pub struct SpecMachine {
    pub cmd: SpecCommand,
    pub token: Option<Seq<u8>>,
    pub phase: SpecPhase,
}

impl Machine {
    /// The mathematical value of this machine.
    pub open spec fn deep(&self) -> SpecMachine {
        SpecMachine { cmd: self.cmd.deep(), token: opt_view(self.token), phase: self.phase.deep() }
    }
}

/// What the shell must do next: perform a boundary operation and report
/// its event, or finish the invocation with the given outcome (print the
/// text and exit 0, or print the error message and exit 1).
pub enum Action {
    Call { op: BoundaryOp },
    Finish { outcome: Result<Vec<u8>, CliError> },
}

/// The mathematical value of an `Action`.
pub enum SpecAction {
    Call { op: SpecOp },
    Finish { outcome: Result<Seq<u8>, SpecError> },
}

impl Action {
    /// The mathematical value of this action.
    pub open spec fn deep(&self) -> SpecAction {
        match self {
            Action::Call { op } => SpecAction::Call { op: op.deep() },
            Action::Finish { outcome } => SpecAction::Finish { outcome: deep_outcome(*outcome) },
        }
    }
}

// ---------------------------------------------------------------------
// Fixed messages
// ---------------------------------------------------------------------

/// The configuration error for a missing server.
pub open spec fn no_server_msg() -> Seq<u8> {
    text_bytes("No server specified. Use --server URL or login first."@)
}

/// The configuration error for a missing token.
pub open spec fn no_token_msg() -> Seq<u8> {
    text_bytes("No token provided. Use --token, set KRFILES_TOKEN, or run `krfiles login` first."@)
}

/// The decode error for a malformed response.
pub open spec fn decode_msg() -> Seq<u8> {
    text_bytes("Failed to parse response"@)
}

/// The message reported when no error was recorded in the last-error slot.
pub open spec fn unknown_error_msg() -> Seq<u8> {
    text_bytes("Unknown error"@)
}

/// The task error for a worker failure, naming the worker's message.
pub open spec fn task_msg(m: Seq<u8>) -> Seq<u8> {
    text_bytes("Task failed: "@) + m
}

fn task_error(message: Vec<u8>) -> (r: CliError)
    ensures
        r.deep() == (SpecError::Task { message: task_msg(message@) }),
{
    let mut v = text("Task failed: ");
    append_bytes(&mut v, &message);
    CliError::Task { message: v }
}

fn decode_error() -> (r: CliError)
    ensures
        r.deep() == (SpecError::Decode { message: decode_msg() }),
{
    CliError::Decode { message: text("Failed to parse response") }
}

// ---------------------------------------------------------------------
// Boundary result conversions
// ---------------------------------------------------------------------

/// Convert the boolean result of a boundary call, false meaning failure
/// with the given last-error message.
pub fn bool_to_result(ok: bool, last_error: Vec<u8>) -> (r: Result<(), Vec<u8>>)
    ensures
        ok ==> (r is Ok),
        !ok ==> r == Result::<(), Vec<u8>>::Err(last_error),
{
    if ok {
        Ok(())
    } else {
        Err(last_error)
    }
}

/// Convert the nullable string result of a boundary call, null meaning
/// failure with the given last-error message.
pub fn nullable_str_to_result(value: Option<Vec<u8>>, last_error: Vec<u8>) -> (r: Result<
    Vec<u8>,
    Vec<u8>,
>)
    ensures
        value matches Some(v) ==> r == Result::<Vec<u8>, Vec<u8>>::Ok(v),
        (value is None) ==> r == Result::<Vec<u8>, Vec<u8>>::Err(last_error),
{
    match value {
        Some(v) => Ok(v),
        None => Err(last_error),
    }
}

// ---------------------------------------------------------------------
// The operation a command performs
// ---------------------------------------------------------------------

/// Position just after the last slash up to position `from` (inclusive),
/// or zero if there is none.
pub open spec fn spec_after_slash(s: Seq<u8>, from: int) -> int
    decreases from + 1,
{
    if from < 0 {
        0
    } else if s[from] == 47 {
        from + 1
    } else {
        spec_after_slash(s, from - 1)
    }
}

/// The local name a download defaults to: the part of the remote path
/// after its last slash.
pub open spec fn spec_default_local(s: Seq<u8>) -> Seq<u8> {
    s.subrange(spec_after_slash(s, s.len() - 1), s.len() as int)
}

fn after_slash(s: &Vec<u8>, fp: usize) -> (r: usize)
    requires
        fp <= s.len(),
    ensures
        r as int == spec_after_slash(s@, fp as int - 1),
        r <= fp,
    decreases fp,
{
    if fp == 0 {
        0
    } else if s[fp - 1] == 47 {
        fp
    } else {
        after_slash(s, fp - 1)
    }
}

/// The local name a download defaults to.
pub fn default_local(remote: &Vec<u8>) -> (r: Vec<u8>)
    ensures
        r@ == spec_default_local(remote@),
{
    let cut = after_slash(remote, remote.len());
    let mut r: Vec<u8> = Vec::new();
    let mut k: usize = cut;
    while k < remote.len()
        invariant
            cut <= k <= remote@.len(),
            r@ == remote@.subrange(cut as int, k as int),
        decreases remote@.len() - k,
    {
        r.push(remote[k]);
        proof {
            assert(r@ =~= remote@.subrange(cut as int, (k + 1) as int));
        }
        k = k + 1;
    }
    r
}

/// The boundary operation a non-login command performs.
pub open spec fn spec_op_of(cmd: SpecCommand) -> SpecOp {
    match cmd {
        SpecCommand::Login { username, password, .. } => SpecOp::Login { username, password },
        SpecCommand::Ls { path } => SpecOp::ListDirectory { path },
        SpecCommand::Info { path } => SpecOp::GetResource { path },
        SpecCommand::Get { remote_path, local_path } => SpecOp::Download {
            remote: remote_path,
            local: match local_path {
                Option::Some(l) => l,
                Option::None => spec_default_local(remote_path),
            },
        },
        SpecCommand::Put { local_path, remote_path, force } => SpecOp::Upload {
            remote: remote_path,
            local: local_path,
            overwrite: force,
        },
        SpecCommand::Rm { path } => SpecOp::Delete { path },
        SpecCommand::Mv { source, destination, force } => SpecOp::Rename {
            source,
            destination,
            overwrite: force,
        },
        SpecCommand::Cp { source, destination, force } => SpecOp::Copy {
            source,
            destination,
            overwrite: force,
        },
        SpecCommand::Mkdir { path } => SpecOp::CreateDirectory { path },
        SpecCommand::Search { query, path } => SpecOp::Search { query, path },
    }
}

/// Build the boundary operation a command performs.
pub fn op_of(cmd: &Command) -> (r: BoundaryOp)
    ensures
        r.deep() == spec_op_of(cmd.deep()),
{
    match cmd {
        Command::Login { username, password, .. } => BoundaryOp::Login {
            username: copy_bytes(username),
            password: copy_bytes(password),
        },
        Command::Ls { path } => BoundaryOp::ListDirectory { path: copy_bytes(path) },
        Command::Info { path } => BoundaryOp::GetResource { path: copy_bytes(path) },
        Command::Get { remote_path, local_path } => BoundaryOp::Download {
            remote: copy_bytes(remote_path),
            local: match local_path {
                Some(l) => copy_bytes(l),
                None => default_local(remote_path),
            },
        },
        Command::Put { local_path, remote_path, force } => BoundaryOp::Upload {
            remote: copy_bytes(remote_path),
            local: copy_bytes(local_path),
            overwrite: *force,
        },
        Command::Rm { path } => BoundaryOp::Delete { path: copy_bytes(path) },
        Command::Mv { source, destination, force } => BoundaryOp::Rename {
            source: copy_bytes(source),
            destination: copy_bytes(destination),
            overwrite: *force,
        },
        Command::Cp { source, destination, force } => BoundaryOp::Copy {
            source: copy_bytes(source),
            destination: copy_bytes(destination),
            overwrite: *force,
        },
        Command::Mkdir { path } => BoundaryOp::CreateDirectory { path: copy_bytes(path) },
        Command::Search { query, path } => BoundaryOp::Search {
            query: copy_bytes(query),
            path: copy_bytes(path),
        },
    }
}

/// What a successful boolean operation prints.
pub open spec fn spec_render_success(cmd: SpecCommand) -> Seq<u8> {
    match cmd {
        SpecCommand::Get { remote_path, local_path } => text_bytes("\u{2713} Downloaded "@)
            + remote_path + text_bytes(" \u{2192} "@) + (match local_path {
            Option::Some(l) => l,
            Option::None => spec_default_local(remote_path),
        }) + text_bytes("\n"@),
        SpecCommand::Put { local_path, remote_path, .. } => text_bytes("\u{2713} Uploaded "@)
            + local_path + text_bytes(" \u{2192} "@) + remote_path + text_bytes("\n"@),
        SpecCommand::Rm { path } => text_bytes("\u{2713} Deleted "@) + path + text_bytes("\n"@),
        SpecCommand::Mv { source, destination, .. } => text_bytes("\u{2713} Moved "@) + source
            + text_bytes(" \u{2192} "@) + destination + text_bytes("\n"@),
        SpecCommand::Cp { source, destination, .. } => text_bytes("\u{2713} Copied "@) + source
            + text_bytes(" \u{2192} "@) + destination + text_bytes("\n"@),
        SpecCommand::Mkdir { path } => text_bytes("\u{2713} Created directory "@) + path
            + text_bytes("\n"@),
        _ => Seq::empty(),
    }
}

/// Render the success message of a boolean operation.
pub fn render_success(cmd: &Command) -> (out: Vec<u8>)
    ensures
        out@ == spec_render_success(cmd.deep()),
{
    match cmd {
        Command::Get { remote_path, local_path } => {
            let mut out = text("\u{2713} Downloaded ");
            append_bytes(&mut out, remote_path);
            let t = text(" \u{2192} ");
            append_bytes(&mut out, &t);
            let local = match local_path {
                Some(l) => copy_bytes(l),
                None => default_local(remote_path),
            };
            append_bytes(&mut out, &local);
            let nl = text("\n");
            append_bytes(&mut out, &nl);
            proof {
                assert(out@ =~= spec_render_success(cmd.deep()));
            }
            out
        },
        Command::Put { local_path, remote_path, .. } => {
            let mut out = text("\u{2713} Uploaded ");
            append_bytes(&mut out, local_path);
            let t = text(" \u{2192} ");
            append_bytes(&mut out, &t);
            append_bytes(&mut out, remote_path);
            let nl = text("\n");
            append_bytes(&mut out, &nl);
            proof {
                assert(out@ =~= spec_render_success(cmd.deep()));
            }
            out
        },
        Command::Rm { path } => {
            let mut out = text("\u{2713} Deleted ");
            append_bytes(&mut out, path);
            let nl = text("\n");
            append_bytes(&mut out, &nl);
            proof {
                assert(out@ =~= spec_render_success(cmd.deep()));
            }
            out
        },
        Command::Mv { source, destination, .. } => {
            let mut out = text("\u{2713} Moved ");
            append_bytes(&mut out, source);
            let t = text(" \u{2192} ");
            append_bytes(&mut out, &t);
            append_bytes(&mut out, destination);
            let nl = text("\n");
            append_bytes(&mut out, &nl);
            proof {
                assert(out@ =~= spec_render_success(cmd.deep()));
            }
            out
        },
        Command::Cp { source, destination, .. } => {
            let mut out = text("\u{2713} Copied ");
            append_bytes(&mut out, source);
            let t = text(" \u{2192} ");
            append_bytes(&mut out, &t);
            append_bytes(&mut out, destination);
            let nl = text("\n");
            append_bytes(&mut out, &nl);
            proof {
                assert(out@ =~= spec_render_success(cmd.deep()));
            }
            out
        },
        Command::Mkdir { path } => {
            let mut out = text("\u{2713} Created directory ");
            append_bytes(&mut out, path);
            let nl = text("\n");
            append_bytes(&mut out, &nl);
            proof {
                assert(out@ =~= spec_render_success(cmd.deep()));
            }
            out
        },
        _ => {
            let out: Vec<u8> = Vec::new();
            proof {
                assert(out@ =~= spec_render_success(cmd.deep()));
            }
            out
        },
    }
}

// ---------------------------------------------------------------------
// The state machine
// ---------------------------------------------------------------------

/// Whether a command's operation returns JSON text (the others return a
/// boolean flag).
pub open spec fn is_json_cmd(cmd: SpecCommand) -> bool {
    cmd is Ls || cmd is Info || cmd is Search
}

/// The machine's internal consistency: the login phases belong to the
/// login command, and the token is at hand whenever it is still owed to
/// the boundary.
pub open spec fn wf(m: SpecMachine) -> bool {
    &&& (m.phase is AwaitLogin ==> m.cmd is Login)
    &&& (m.phase is AwaitToken ==> !(m.cmd is Login) && m.token is Some)
    &&& ((m.phase is AwaitCreate && !(m.cmd is Login)) ==> m.token is Some)
    &&& (m.phase is AwaitOp ==> !(m.cmd is Login))
}

/// Which event answers the outstanding call of each phase. A finished
/// machine takes no further events.
pub open spec fn event_fits(m: SpecMachine, ev: SpecEvent) -> bool {
    match m.phase {
        SpecPhase::AwaitCreate => ev is Done,
        SpecPhase::AwaitToken => ev is Flag,
        SpecPhase::AwaitLogin => ev is Text || ev is TaskFailed,
        SpecPhase::AwaitOp => if is_json_cmd(m.cmd) {
            ev is Text || ev is TaskFailed
        } else {
            ev is Flag || ev is TaskFailed
        },
        SpecPhase::AwaitError { .. } => ev is ErrorText,
        SpecPhase::AwaitCleanup { .. } => ev is Done,
        SpecPhase::Finished => false,
    }
}

/// Where a step lands when the event does not answer the outstanding
/// call; unreachable while the shell follows the protocol.
pub open spec fn spec_stuck(m: SpecMachine) -> (SpecMachine, SpecAction) {
    (
        SpecMachine { cmd: m.cmd, token: m.token, phase: SpecPhase::Finished },
        SpecAction::Finish {
            outcome: Err(SpecError::Task { message: text_bytes("protocol violation"@) }),
        },
    )
}

fn stuck(cmd: Command, token: Option<Vec<u8>>) -> (r: (Machine, Action))
    ensures
        r.0.deep() == (SpecMachine {
            cmd: cmd.deep(),
            token: opt_view(token),
            phase: SpecPhase::Finished,
        }),
        r.1.deep() == (SpecAction::Finish {
            outcome: Err(SpecError::Task { message: text_bytes("protocol violation"@) }),
        }),
{
    (
        Machine { cmd, token, phase: Phase::Finished },
        Action::Finish { outcome: Err(CliError::Task { message: text("protocol violation") }) },
    )
}

/// Where an invocation begins, and the first thing the shell must do.
/// The login command brings its own server and goes straight to handle
/// creation; every other command needs the server flag and a token, and a
/// missing one is a configuration error raised before any handle exists —
/// the shell is never asked to create one.
pub open spec fn spec_start(
    cmd: SpecCommand,
    server: Option<Seq<u8>>,
    token: Option<Seq<u8>>,
) -> (SpecMachine, SpecAction) {
    match cmd {
        SpecCommand::Login { server: url, .. } => (
            SpecMachine { cmd, token: None, phase: SpecPhase::AwaitCreate },
            SpecAction::Call { op: SpecOp::Create { url } },
        ),
        _ => match server {
            Option::None => (
                SpecMachine { cmd, token: None, phase: SpecPhase::Finished },
                SpecAction::Finish {
                    outcome: Err(SpecError::Config { message: no_server_msg() }),
                },
            ),
            Option::Some(url) => match token {
                Option::None => (
                    SpecMachine { cmd, token: None, phase: SpecPhase::Finished },
                    SpecAction::Finish {
                        outcome: Err(SpecError::Config { message: no_token_msg() }),
                    },
                ),
                Option::Some(t) => (
                    SpecMachine { cmd, token: Some(t), phase: SpecPhase::AwaitCreate },
                    SpecAction::Call { op: SpecOp::Create { url } },
                ),
            },
        },
    }
}

/// Begin an invocation.
pub fn start(cmd: Command, server: Option<Vec<u8>>, token: Option<Vec<u8>>) -> (r: (
    Machine,
    Action,
))
    ensures
        r.0.deep() == spec_start(cmd.deep(), opt_view(server), opt_view(token)).0,
        r.1.deep() == spec_start(cmd.deep(), opt_view(server), opt_view(token)).1,
        wf(r.0.deep()),
{
    match &cmd {
        Command::Login { server: url, .. } => {
            let u = copy_bytes(url);
            (
                Machine { cmd, token: None, phase: Phase::AwaitCreate },
                Action::Call { op: BoundaryOp::Create { url: u } },
            )
        },
        _ => {
            match server {
                None => (
                    Machine { cmd, token: None, phase: Phase::Finished },
                    Action::Finish {
                        outcome: Err(
                            CliError::Config {
                                message: text("No server specified. Use --server URL or login first."),
                            },
                        ),
                    },
                ),
                Some(url) => match token {
                    None => (
                        Machine { cmd, token: None, phase: Phase::Finished },
                        Action::Finish {
                            outcome: Err(
                                CliError::Config {
                                    message: text(
                                        "No token provided. Use --token, set KRFILES_TOKEN, or run `krfiles login` first.",
                                    ),
                                },
                            ),
                        },
                    ),
                    Some(t) => (
                        Machine { cmd, token: Some(t), phase: Phase::AwaitCreate },
                        Action::Call { op: BoundaryOp::Create { url } },
                    ),
                },
            }
        },
    }
}

/// What a JSON-returning operation's payload becomes: parsed, decoded
/// and rendered for the command at hand; malformed or oversized payloads
/// are a decode failure.
pub open spec fn spec_op_payload(cmd: SpecCommand, bytes: Seq<u8>) -> Result<Seq<u8>, SpecError> {
    if bytes.len() > MAX_INPUT {
        Err(SpecError::Decode { message: decode_msg() })
    } else {
        match spec_parse(bytes) {
            Option::None => Err(SpecError::Decode { message: decode_msg() }),
            Option::Some(sj) => match cmd {
                SpecCommand::Ls { .. } => match spec_decode_resource(sj) {
                    Option::None => Err(SpecError::Decode { message: decode_msg() }),
                    Option::Some(sr) => Ok(spec_render_ls(sr)),
                },
                SpecCommand::Info { .. } => match spec_decode_resource(sj) {
                    Option::None => Err(SpecError::Decode { message: decode_msg() }),
                    Option::Some(sr) => Ok(spec_render_info(sr)),
                },
                SpecCommand::Search { query, .. } => match spec_decode_search_list(sj) {
                    Option::None => Err(SpecError::Decode { message: decode_msg() }),
                    Option::Some(rs) => Ok(spec_render_search(query, rs)),
                },
                _ => Err(SpecError::Decode { message: decode_msg() }),
            },
        }
    }
}

fn op_payload(cmd: &Command, bytes: Vec<u8>) -> (r: Result<Vec<u8>, CliError>)
    ensures
        deep_outcome(r) == spec_op_payload(cmd.deep(), bytes@),
{
    if bytes.len() > MAX_INPUT {
        Err(decode_error())
    } else {
        match parse_json(&bytes) {
            None => Err(decode_error()),
            Some(j) => match cmd {
                Command::Ls { .. } => match decode_resource(&j) {
                    None => Err(decode_error()),
                    Some(res) => Ok(render_ls(&res)),
                },
                Command::Info { .. } => match decode_resource(&j) {
                    None => Err(decode_error()),
                    Some(res) => Ok(render_info(&res)),
                },
                Command::Search { query, .. } => match decode_search_list(&j) {
                    None => Err(decode_error()),
                    Some(rs) => Ok(render_search(query, &rs)),
                },
                _ => Err(decode_error()),
            },
        }
    }
}

/// One step of the invocation: consume the event answering the
/// outstanding call, and say what to do next. Every failure of a boundary
/// call is followed at once by a last-error read, with no other call in
/// between; the handle is destroyed on every path, whatever the outcome;
/// and the outcome is surfaced only after the destruction completes.
pub open spec fn spec_step(m: SpecMachine, ev: SpecEvent) -> (SpecMachine, SpecAction) {
    match m.phase {
        SpecPhase::AwaitCreate => match ev {
            SpecEvent::Done => match m.cmd {
                SpecCommand::Login { username, password, .. } => (
                    SpecMachine { cmd: m.cmd, token: m.token, phase: SpecPhase::AwaitLogin },
                    SpecAction::Call { op: SpecOp::Login { username, password } },
                ),
                _ => match m.token {
                    Option::Some(t) => (
                        SpecMachine { cmd: m.cmd, token: m.token, phase: SpecPhase::AwaitToken },
                        SpecAction::Call { op: SpecOp::SetToken { token: t } },
                    ),
                    Option::None => spec_stuck(m),
                },
            },
            _ => spec_stuck(m),
        },
        SpecPhase::AwaitToken => match ev {
            SpecEvent::Flag { .. } => (
                SpecMachine { cmd: m.cmd, token: m.token, phase: SpecPhase::AwaitOp },
                SpecAction::Call { op: spec_op_of(m.cmd) },
            ),
            _ => spec_stuck(m),
        },
        SpecPhase::AwaitLogin => match ev {
            SpecEvent::Text { value } => match value {
                Option::Some(tok) => match m.cmd {
                    SpecCommand::Login { server, .. } => (
                        SpecMachine {
                            cmd: m.cmd,
                            token: m.token,
                            phase: SpecPhase::AwaitCleanup {
                                outcome: Ok(spec_render_login(server, tok)),
                            },
                        },
                        SpecAction::Call { op: SpecOp::Destroy },
                    ),
                    _ => spec_stuck(m),
                },
                Option::None => (
                    SpecMachine {
                        cmd: m.cmd,
                        token: m.token,
                        phase: SpecPhase::AwaitError { auth: true },
                    },
                    SpecAction::Call { op: SpecOp::GetLastError },
                ),
            },
            SpecEvent::TaskFailed { message } => (
                SpecMachine {
                    cmd: m.cmd,
                    token: m.token,
                    phase: SpecPhase::AwaitCleanup {
                        outcome: Err(SpecError::Task { message: task_msg(message) }),
                    },
                },
                SpecAction::Call { op: SpecOp::Destroy },
            ),
            _ => spec_stuck(m),
        },
        SpecPhase::AwaitOp => match ev {
            SpecEvent::Text { value } => if is_json_cmd(m.cmd) {
                match value {
                    Option::Some(bytes) => (
                        SpecMachine {
                            cmd: m.cmd,
                            token: m.token,
                            phase: SpecPhase::AwaitCleanup {
                                outcome: spec_op_payload(m.cmd, bytes),
                            },
                        },
                        SpecAction::Call { op: SpecOp::Destroy },
                    ),
                    Option::None => (
                        SpecMachine {
                            cmd: m.cmd,
                            token: m.token,
                            phase: SpecPhase::AwaitError { auth: false },
                        },
                        SpecAction::Call { op: SpecOp::GetLastError },
                    ),
                }
            } else {
                spec_stuck(m)
            },
            SpecEvent::Flag { ok } => if !is_json_cmd(m.cmd) && !(m.cmd is Login) {
                if ok {
                    (
                        SpecMachine {
                            cmd: m.cmd,
                            token: m.token,
                            phase: SpecPhase::AwaitCleanup {
                                outcome: Ok(spec_render_success(m.cmd)),
                            },
                        },
                        SpecAction::Call { op: SpecOp::Destroy },
                    )
                } else {
                    (
                        SpecMachine {
                            cmd: m.cmd,
                            token: m.token,
                            phase: SpecPhase::AwaitError { auth: false },
                        },
                        SpecAction::Call { op: SpecOp::GetLastError },
                    )
                }
            } else {
                spec_stuck(m)
            },
            SpecEvent::TaskFailed { message } => (
                SpecMachine {
                    cmd: m.cmd,
                    token: m.token,
                    phase: SpecPhase::AwaitCleanup {
                        outcome: Err(SpecError::Task { message: task_msg(message) }),
                    },
                },
                SpecAction::Call { op: SpecOp::Destroy },
            ),
            _ => spec_stuck(m),
        },
        SpecPhase::AwaitError { auth } => match ev {
            SpecEvent::ErrorText { value } => {
                let msg = match value {
                    Option::Some(mm) => mm,
                    Option::None => unknown_error_msg(),
                };
                (
                    SpecMachine {
                        cmd: m.cmd,
                        token: m.token,
                        phase: SpecPhase::AwaitCleanup {
                            outcome: Err(
                                if auth {
                                    SpecError::Auth { message: msg }
                                } else {
                                    SpecError::Transport { message: msg }
                                },
                            ),
                        },
                    },
                    SpecAction::Call { op: SpecOp::Destroy },
                )
            },
            _ => spec_stuck(m),
        },
        SpecPhase::AwaitCleanup { outcome } => match ev {
            SpecEvent::Done => (
                SpecMachine { cmd: m.cmd, token: m.token, phase: SpecPhase::Finished },
                SpecAction::Finish { outcome },
            ),
            _ => spec_stuck(m),
        },
        SpecPhase::Finished => spec_stuck(m),
    }
}

/// One step of the invocation.
pub fn step(m: Machine, ev: BoundaryEvent) -> (r: (Machine, Action))
    requires
        wf(m.deep()),
        event_fits(m.deep(), ev.deep()),
    ensures
        r.0.deep() == spec_step(m.deep(), ev.deep()).0,
        r.1.deep() == spec_step(m.deep(), ev.deep()).1,
        wf(r.0.deep()),
{
    let Machine { cmd, token, phase } = m;
    match phase {
        Phase::AwaitCreate => match ev {
            BoundaryEvent::Done => match &cmd {
                Command::Login { username, password, .. } => {
                    let op = BoundaryOp::Login {
                        username: copy_bytes(username),
                        password: copy_bytes(password),
                    };
                    (Machine { cmd, token, phase: Phase::AwaitLogin }, Action::Call { op })
                },
                _ => match &token {
                    Some(t) => {
                        let op = BoundaryOp::SetToken { token: copy_bytes(t) };
                        (Machine { cmd, token, phase: Phase::AwaitToken }, Action::Call { op })
                    },
                    None => stuck(cmd, token),
                },
            },
            _ => stuck(cmd, token),
        },
        Phase::AwaitToken => match ev {
            BoundaryEvent::Flag { .. } => {
                let op = op_of(&cmd);
                (Machine { cmd, token, phase: Phase::AwaitOp }, Action::Call { op })
            },
            _ => stuck(cmd, token),
        },
        Phase::AwaitLogin => match ev {
            BoundaryEvent::Text { value } => match value {
                Some(tok) => match &cmd {
                    Command::Login { server, .. } => {
                        let out = render_login(server, &tok);
                        (
                            Machine {
                                cmd,
                                token,
                                phase: Phase::AwaitCleanup { outcome: Ok(out) },
                            },
                            Action::Call { op: BoundaryOp::Destroy },
                        )
                    },
                    _ => stuck(cmd, token),
                },
                None => (
                    Machine { cmd, token, phase: Phase::AwaitError { auth: true } },
                    Action::Call { op: BoundaryOp::GetLastError },
                ),
            },
            BoundaryEvent::TaskFailed { message } => (
                Machine {
                    cmd,
                    token,
                    phase: Phase::AwaitCleanup { outcome: Err(task_error(message)) },
                },
                Action::Call { op: BoundaryOp::Destroy },
            ),
            _ => stuck(cmd, token),
        },
        Phase::AwaitOp => match ev {
            BoundaryEvent::Text { value } => match &cmd {
                Command::Ls { .. } | Command::Info { .. } | Command::Search { .. } => match value {
                    Some(bytes) => {
                        let outcome = op_payload(&cmd, bytes);
                        (
                            Machine { cmd, token, phase: Phase::AwaitCleanup { outcome } },
                            Action::Call { op: BoundaryOp::Destroy },
                        )
                    },
                    None => (
                        Machine { cmd, token, phase: Phase::AwaitError { auth: false } },
                        Action::Call { op: BoundaryOp::GetLastError },
                    ),
                },
                _ => stuck(cmd, token),
            },
            BoundaryEvent::Flag { ok } => match &cmd {
                Command::Get { .. }
                | Command::Put { .. }
                | Command::Rm { .. }
                | Command::Mv { .. }
                | Command::Cp { .. }
                | Command::Mkdir { .. } => {
                    if ok {
                        let out = render_success(&cmd);
                        (
                            Machine {
                                cmd,
                                token,
                                phase: Phase::AwaitCleanup { outcome: Ok(out) },
                            },
                            Action::Call { op: BoundaryOp::Destroy },
                        )
                    } else {
                        (
                            Machine { cmd, token, phase: Phase::AwaitError { auth: false } },
                            Action::Call { op: BoundaryOp::GetLastError },
                        )
                    }
                },
                _ => stuck(cmd, token),
            },
            BoundaryEvent::TaskFailed { message } => (
                Machine {
                    cmd,
                    token,
                    phase: Phase::AwaitCleanup { outcome: Err(task_error(message)) },
                },
                Action::Call { op: BoundaryOp::Destroy },
            ),
            _ => stuck(cmd, token),
        },
        Phase::AwaitError { auth } => match ev {
            BoundaryEvent::ErrorText { value } => {
                let msg = match value {
                    Some(mm) => mm,
                    None => text("Unknown error"),
                };
                let err = if auth {
                    CliError::Auth { message: msg }
                } else {
                    CliError::Transport { message: msg }
                };
                (
                    Machine { cmd, token, phase: Phase::AwaitCleanup { outcome: Err(err) } },
                    Action::Call { op: BoundaryOp::Destroy },
                )
            },
            _ => stuck(cmd, token),
        },
        Phase::AwaitCleanup { outcome } => match ev {
            BoundaryEvent::Done => (
                Machine { cmd, token, phase: Phase::Finished },
                Action::Finish { outcome },
            ),
            _ => stuck(cmd, token),
        },
        Phase::Finished => stuck(cmd, token),
    }
}

} // verus!
