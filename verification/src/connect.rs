//! Turning a session into the `ssh` or `herdr` command that connects to it,
//! and reading `user@host[:port]` host specs from the command line.
//!
//! The library decides the program, its arguments and whether the stored
//! password has to be handed over through `SSH_ASKPASS`; running the command
//! is the caller's job.

use vstd::prelude::*;

use crate::storage::{Session, SessionView};
use crate::text::{self, CharClass};

verus! {

/// How to connect.
#[derive(Debug, Clone)]
pub struct ConnectConfig {
    /// Route SSH connections through `herdr --remote` instead of plain `ssh`.
    pub use_herdr: bool,
}

/// A command to run: program, arguments, and whether the session's password
/// must be served to it through the askpass hand-off.
#[derive(Debug, Clone)]
pub struct CommandPlan {
    pub program: String,
    pub args: Vec<String>,
    pub password_handoff: bool,
}

pub struct CommandPlanView {
    pub program: Seq<char>,
    pub args: Seq<Seq<char>>,
    pub password_handoff: bool,
}

impl View for CommandPlan {
    type V = CommandPlanView;

    open spec fn view(&self) -> CommandPlanView {
        CommandPlanView {
            program: self.program@,
            args: crate::storage::strings_view(self.args@),
            password_handoff: self.password_handoff,
        }
    }
}

/// Why a `user@host[:port]` spec was refused.
#[derive(Debug, Clone, Copy, PartialEq, Eq)]
pub enum HostSpecError {
    /// No `@` in the spec.
    MissingAt,
    /// The text after the last `:` is not a port number.
    InvalidPort,
    /// Nothing before the `@`.
    MissingUser,
    /// Nothing between the `@` and the port.
    MissingHost,
}

/// `user@host`, or just `host` when no user is set (ssh then falls back to
/// the local login or the ssh_config default).
pub open spec fn ssh_target_spec(s: SessionView) -> Seq<char> {
    if s.user.len() == 0 {
        s.host
    } else {
        s.user + seq!['@'] + s.host
    }
}

/// Build the `user@host` target, omitting `user@` when no user is set.
pub fn ssh_target(session: &Session) -> (r: String)
    ensures
        r@ == ssh_target_spec(session@),
{
    if session.user.as_str().is_empty() {
        session.host.clone()
    } else {
        let mut t = session.user.clone();
        text::push_char(&mut t, '@');
        text::push_str(&mut t, session.host.as_str());
        assert(t@ =~= session.user@ + seq!['@'] + session.host@);
        t
    }
}

/// `user@host[:port]`: the user runs up to the first `@`; a port follows the
/// last `:` after it, 22 otherwise. The whole spec becomes the session name.
pub open spec fn parse_hostspec_spec(s: Seq<char>) -> Result<SessionView, HostSpecError> {
    let at = text::first_index(s, CharClass::At, true);
    if at >= s.len() {
        Err(HostSpecError::MissingAt)
    } else {
        let user = s.subrange(0, at);
        let rest = s.subrange(at + 1, s.len() as int);
        let c = text::last_index(rest, CharClass::Colon);
        let hp: Result<(Seq<char>, u16), HostSpecError> = if c >= 0 {
            match text::parse_u16_spec(rest.subrange(c + 1, rest.len() as int)) {
                Some(p) => Ok((rest.subrange(0, c), p)),
                None => Err(HostSpecError::InvalidPort),
            }
        } else {
            Ok((rest, 22u16))
        };
        match hp {
            Err(e) => Err(e),
            Ok(hp) => if user.len() == 0 {
                Err(HostSpecError::MissingUser)
            } else if hp.0.len() == 0 {
                Err(HostSpecError::MissingHost)
            } else {
                Ok(SessionView { name: s, host: hp.0, user: user, port: hp.1, ..SessionView::blank() })
            },
        }
    }
}

/// The password never reaches the command line: two sessions that differ
/// only in their (non-empty) stored passwords are connected with the very
/// same command.
pub proof fn lemma_password_not_in_command(s: SessionView, p1: Seq<char>, p2: Seq<char>, use_herdr: bool)
    requires
        p1.len() > 0,
        p2.len() > 0,
    ensures
        connect_plan(SessionView { password: p1, ..s }, use_herdr) == connect_plan(
            SessionView { password: p2, ..s },
            use_herdr,
        ),
{
    let a = SessionView { password: p1, ..s };
    let b = SessionView { password: p2, ..s };
    assert(ssh_target_spec(a) == ssh_target_spec(b));
    assert(jump_args(a) == jump_args(b));
}

/// The host spec `user@host:port`.
pub open spec fn hostspec(user: Seq<char>, host: Seq<char>, port: u16) -> Seq<char> {
    user + seq!['@'] + host + seq![':'] + text::decimal(port as nat)
}

/// What `-c user@host:port` names is what it reads back as: for a user
/// without `@` and a host without `:` (both non-empty), the spec parses to
/// exactly that user, host and port.
pub proof fn lemma_hostspec_roundtrip(user: Seq<char>, host: Seq<char>, port: u16)
    requires
        user.len() > 0,
        host.len() > 0,
        !user.contains('@'),
        !host.contains(':'),
    ensures
        parse_hostspec_spec(hostspec(user, host, port)) == Ok::<SessionView, HostSpecError>(
            SessionView { name: hostspec(user, host, port), host: host, user: user, port: port, ..SessionView::blank() },
        ),
{
    let s = hostspec(user, host, port);
    let d = text::decimal(port as nat);
    text::lemma_decimal_digits(port as nat);
    text::lemma_decimal_parses(port);
    assert forall|j: int| 0 <= j < user.len() implies !text::in_class(CharClass::At, #[trigger] s[j]) by {
        assert(s[j] == user[j]);
        if s[j] == '@' {
            assert(user.contains('@'));
        }
    }
    assert(s[user.len() as int] == '@');
    text::lemma_first_index_at(s, CharClass::At, true, user.len() as int);
    let rest = s.subrange(user.len() as int + 1, s.len() as int);
    assert(rest =~= host + seq![':'] + d);
    assert(rest[host.len() as int] == ':');
    text::lemma_last_index_bounds(rest, CharClass::Colon);
    let c = text::last_index(rest, CharClass::Colon);
    assert forall|j: int| host.len() < j < rest.len() implies !text::in_class(CharClass::Colon, #[trigger] rest[j]) by {
        assert(rest[j] == d[j - host.len() - 1]);
        assert(text::is_digit(d[j - host.len() - 1]));
    }
    if c < host.len() {
        assert(!text::in_class(CharClass::Colon, rest[host.len() as int]));
    }
    if c > host.len() {
        assert(text::in_class(CharClass::Colon, rest[c]));
    }
    assert(c == host.len());
    assert(rest.subrange(c + 1, rest.len() as int) =~= d);
    assert(rest.subrange(0, c) =~= host);
    assert(s.subrange(0, user.len() as int) =~= user);
}

/// Parse `user@host` or `user@host:port` into a session named after the spec.
pub fn parse_hostspec(spec: &str) -> (r: Result<Session, HostSpecError>)
    ensures
        match r {
            Ok(s) => parse_hostspec_spec(spec@) == Ok::<SessionView, HostSpecError>(s@),
            Err(e) => parse_hostspec_spec(spec@) == Err::<SessionView, HostSpecError>(e),
        },
{
    let v = text::chars_of(spec);
    let at = text::find_from(&v, 0, CharClass::At, true);
    assert(v@.subrange(0, v@.len() as int) =~= v@);
    if at >= v.len() {
        return Err(HostSpecError::MissingAt);
    }
    let ghost rest = v@.subrange(at + 1, v@.len() as int);
    let user = text::string_of_range(&v, 0, at);
    let colon = text::rfind_in(&v, at + 1, v.len(), CharClass::Colon);
    let host: String;
    let port: u16;
    match colon {
        Some(c) => {
            let digits = text::slice_chars(&v, c + 1, v.len());
            assert(digits@ =~= rest.subrange((c - at - 1) + 1, rest.len() as int));
            match text::parse_u16(&digits) {
                Some(p) => {
                    host = text::string_of_range(&v, at + 1, c);
                    assert(host@ =~= rest.subrange(0, c - at - 1));
                    port = p;
                },
                None => {
                    return Err(HostSpecError::InvalidPort);
                },
            }
        },
        None => {
            host = text::string_of_range(&v, at + 1, v.len());
            port = 22;
        },
    }
    if user.as_str().is_empty() {
        return Err(HostSpecError::MissingUser);
    }
    if host.as_str().is_empty() {
        return Err(HostSpecError::MissingHost);
    }
    let mut s = Session::default();
    s.name = text::to_owned_string(spec);
    s.host = host;
    s.user = user;
    s.port = port;
    Ok(s)
}

/// The `herdr --remote <target>` command: the target carries `:port` when the
/// port is not 22 (herdr takes no ssh flags, so jump hosts must live in
/// `~/.ssh/config`).
pub open spec fn herdr_plan(s: SessionView) -> CommandPlanView {
    let target = if s.port != 22 {
        ssh_target_spec(s) + seq![':'] + text::decimal(s.port as nat)
    } else {
        ssh_target_spec(s)
    };
    CommandPlanView {
        program: "herdr"@,
        args: seq!["--remote"@, target],
        password_handoff: s.password.len() > 0,
    }
}

/// The `-J <jump>` arguments when the session has a non-blank jump host.
pub open spec fn jump_args(s: SessionView) -> Seq<Seq<char>> {
    match s.proxy_jump {
        Some(j) => if text::trimmed(j).len() > 0 {
            seq!["-J"@, j]
        } else {
            seq![]
        },
        None => seq![],
    }
}

/// The `ssh -p <port> [-J <jump>] [-o StrictHostKeyChecking=accept-new]
/// <target>` command. New host keys are accepted only when a password is
/// handed over, since the askpass helper refuses host-key prompts.
pub open spec fn ssh_plan(s: SessionView) -> CommandPlanView {
    let hostkey: Seq<Seq<char>> = if s.password.len() > 0 {
        seq!["-o"@, "StrictHostKeyChecking=accept-new"@]
    } else {
        seq![]
    };
    CommandPlanView {
        program: "ssh"@,
        args: seq!["-p"@, text::decimal(s.port as nat)] + jump_args(s) + hostkey + seq![
            ssh_target_spec(s),
        ],
        password_handoff: s.password.len() > 0,
    }
}

/// The command that connects to `session` under `cfg`.
pub open spec fn connect_plan(s: SessionView, use_herdr: bool) -> CommandPlanView {
    if use_herdr {
        herdr_plan(s)
    } else {
        ssh_plan(s)
    }
}

fn push_arg(args: &mut Vec<String>, a: String)
    ensures
        crate::storage::strings_view(final(args)@) == crate::storage::strings_view(old(args)@).push(
            a@,
        ),
{
    args.push(a);
    assert(crate::storage::strings_view(args@) =~= crate::storage::strings_view(old(args)@).push(
        a@,
    ));
}

fn connect_herdr(session: &Session) -> (r: CommandPlan)
    ensures
        r@ == herdr_plan(session@),
{
    let mut target = ssh_target(session);
    if session.port != 22 {
        text::push_char(&mut target, ':');
        let p = text::u16_to_string(session.port);
        text::push_str(&mut target, p.as_str());
        assert(target@ =~= ssh_target_spec(session@) + seq![':'] + text::decimal(
            session.port as nat,
        ));
    }
    let mut args: Vec<String> = Vec::new();
    assert(crate::storage::strings_view(args@) =~= Seq::<Seq<char>>::empty());
    push_arg(&mut args, text::to_owned_string("--remote"));
    push_arg(&mut args, target);
    let r = CommandPlan {
        program: text::to_owned_string("herdr"),
        args,
        password_handoff: !session.password.as_str().is_empty(),
    };
    assert(r@.args =~= herdr_plan(session@).args);
    r
}

fn connect_ssh(session: &Session) -> (r: CommandPlan)
    ensures
        r@ == ssh_plan(session@),
{
    let mut args: Vec<String> = Vec::new();
    assert(crate::storage::strings_view(args@) =~= Seq::<Seq<char>>::empty());
    push_arg(&mut args, text::to_owned_string("-p"));
    push_arg(&mut args, text::u16_to_string(session.port));
    let ghost base = crate::storage::strings_view(args@);
    match &session.proxy_jump {
        Some(j) => {
            let jv = text::chars_of(j.as_str());
            let jt = text::trim_chars(&jv);
            if jt.len() > 0 {
                push_arg(&mut args, text::to_owned_string("-J"));
                push_arg(&mut args, j.clone());
            }
        },
        None => {},
    }
    assert(crate::storage::strings_view(args@) =~= base + jump_args(session@));
    let ghost with_jump = crate::storage::strings_view(args@);
    let handoff = !session.password.as_str().is_empty();
    if handoff {
        push_arg(&mut args, text::to_owned_string("-o"));
        push_arg(&mut args, text::to_owned_string("StrictHostKeyChecking=accept-new"));
    }
    let ghost with_key = crate::storage::strings_view(args@);
    push_arg(&mut args, ssh_target(session));
    let r = CommandPlan { program: text::to_owned_string("ssh"), args, password_handoff: handoff };
    proof {
        let hostkey: Seq<Seq<char>> = if session@.password.len() > 0 {
            seq!["-o"@, "StrictHostKeyChecking=accept-new"@]
        } else {
            seq![]
        };
        assert(with_key =~= with_jump + hostkey);
        assert(r@.args =~= ssh_plan(session@).args);
    }
    r
}

/// The command that connects to `session`: `herdr` when `cfg.use_herdr`,
/// plain `ssh` otherwise.
pub fn do_connect(session: &Session, cfg: &ConnectConfig) -> (r: CommandPlan)
    ensures
        r@ == connect_plan(session@, cfg.use_herdr),
{
    if cfg.use_herdr {
        connect_herdr(session)
    } else {
        connect_ssh(session)
    }
}

/// Parse `user@host[:port]` into the plain-ssh command that connects to it.
pub fn connect_direct(spec: &str) -> (r: Result<CommandPlan, HostSpecError>)
    ensures
        match r {
            Ok(p) => exists|s: SessionView|
                parse_hostspec_spec(spec@) == Ok::<SessionView, HostSpecError>(s) && p@
                    == connect_plan(s, false),
            Err(e) => parse_hostspec_spec(spec@) == Err::<SessionView, HostSpecError>(e),
        },
{
    let session = parse_hostspec(spec)?;
    let cfg = ConnectConfig { use_herdr: false };
    Ok(do_connect(&session, &cfg))
}

// ── command-line output ───────────────────────────────────────────────────────

/// What `ssm --list` prints when nothing is saved.
pub open spec fn no_sessions_line() -> Seq<char> {
    "No saved sessions. Use `ssm` to open the TUI and add one."@
}

/// One `ssm --list` line: name, target and port in columns of 20, 30 and 6.
pub open spec fn list_row_spec(s: SessionView) -> Seq<char> {
    text::pad_spec(s.name, 20) + seq![' '] + text::pad_spec(ssh_target_spec(s), 30) + seq![' ']
        + text::pad_spec(text::decimal(s.port as nat), 6)
}

/// The column titles of `ssm --list`.
pub open spec fn list_header_spec() -> Seq<char> {
    text::pad_spec("NAME"@, 20) + seq![' '] + text::pad_spec("HOST"@, 30) + seq![' ']
        + text::pad_spec("PORT"@, 6)
}

/// Everything `ssm --list` prints, line by line: the notice when nothing is
/// saved, else the column titles, a rule of 58 dashes and one line per
/// session in order.
pub open spec fn list_lines_spec(s: Seq<SessionView>) -> Seq<Seq<char>> {
    if s.len() == 0 {
        seq![no_sessions_line()]
    } else {
        seq![list_header_spec(), Seq::new(58, |i: int| '-')] + s.map_values(|x: SessionView| list_row_spec(x))
    }
}

/// One `ssm --list` line for `s`.
pub fn list_row(s: &Session) -> (r: String)
    ensures
        r@ == list_row_spec(s@),
{
    let mut out = text::pad_right(s.name.as_str(), 20);
    text::push_char(&mut out, ' ');
    let t = ssh_target(s);
    let tp = text::pad_right(t.as_str(), 30);
    text::push_str(&mut out, tp.as_str());
    text::push_char(&mut out, ' ');
    let p = text::u16_to_string(s.port);
    let pp = text::pad_right(p.as_str(), 6);
    text::push_str(&mut out, pp.as_str());
    out
}

/// The lines `ssm --list` prints for `sessions`.
pub fn list_lines(sessions: &Vec<Session>) -> (r: Vec<String>)
    ensures
        crate::storage::strings_view(r@) == list_lines_spec(crate::storage::sessions_view(sessions@)),
{
    let ghost sv = crate::storage::sessions_view(sessions@);
    let mut out: Vec<String> = Vec::new();
    if sessions.len() == 0 {
        out.push(text::to_owned_string("No saved sessions. Use `ssm` to open the TUI and add one."));
        assert(crate::storage::strings_view(out@) =~= list_lines_spec(sv));
        return out;
    }
    let mut header = text::pad_right("NAME", 20);
    text::push_char(&mut header, ' ');
    let h2 = text::pad_right("HOST", 30);
    text::push_str(&mut header, h2.as_str());
    text::push_char(&mut header, ' ');
    let h3 = text::pad_right("PORT", 6);
    text::push_str(&mut header, h3.as_str());
    assert(header@ =~= list_header_spec());
    out.push(header);
    let mut rule = String::new();
    let mut k: usize = 0;
    while k < 58
        invariant
            k <= 58,
            rule@ == Seq::new(k as nat, |i: int| '-'),
        decreases 58 - k,
    {
        text::push_char(&mut rule, '-');
        assert(rule@ =~= Seq::new((k + 1) as nat, |i: int| '-'));
        k += 1;
    }
    out.push(rule);
    let ghost head = seq![list_header_spec(), Seq::new(58, |i: int| '-')];
    assert(crate::storage::strings_view(out@) =~= head);
    let mut i: usize = 0;
    while i < sessions.len()
        invariant
            0 <= i <= sessions.len(),
            sv == crate::storage::sessions_view(sessions@),
            crate::storage::strings_view(out@) == head + sv.subrange(0, i as int).map_values(
                |x: SessionView| list_row_spec(x),
            ),
        decreases sessions.len() - i,
    {
        let line = list_row(&sessions[i]);
        let ghost before = crate::storage::strings_view(out@);
        out.push(line);
        assert(crate::storage::strings_view(out@) =~= before.push(line@));
        assert(sv.subrange(0, i + 1).map_values(|x: SessionView| list_row_spec(x)) =~= sv.subrange(
            0,
            i as int,
        ).map_values(|x: SessionView| list_row_spec(x)).push(list_row_spec(sessions@[i as int]@)));
        i += 1;
    }
    assert(sv.subrange(0, sv.len() as int) =~= sv);
    out
}

/// The line printed before connecting: `Connecting to {user}@{host}:{port} …`.
pub open spec fn connecting_spec(s: SessionView) -> Seq<char> {
    "Connecting to "@ + s.user + seq!['@'] + s.host + seq![':'] + text::decimal(s.port as nat) + " \u{2026}"@
}

/// The line printed before connecting to `s`.
pub fn connecting_message(s: &Session) -> (r: String)
    ensures
        r@ == connecting_spec(s@),
{
    let mut out = text::to_owned_string("Connecting to ");
    text::push_str(&mut out, s.user.as_str());
    text::push_char(&mut out, '@');
    text::push_str(&mut out, s.host.as_str());
    text::push_char(&mut out, ':');
    let p = text::u16_to_string(s.port);
    text::push_str(&mut out, p.as_str());
    text::push_str(&mut out, " \u{2026}");
    assert(out@ =~= connecting_spec(s@));
    out
}

/// The environment that routes a command's password prompt to the askpass
/// helper: ssm itself (`exe`) as `SSH_ASKPASS`, forced even with a terminal,
/// and the socket and nonce the helper must present.
pub open spec fn askpass_env_spec(exe: Seq<char>, sock: Seq<char>, nonce: Seq<char>) -> Seq<(Seq<char>, Seq<char>)> {
    seq![
        ("SSH_ASKPASS"@, exe),
        ("SSH_ASKPASS_REQUIRE"@, "force"@),
        ("SSM_ASKPASS_SOCK"@, sock),
        ("SSM_ASKPASS_NONCE"@, nonce),
    ]
}

/// The askpass environment variables, as `(name, value)` pairs.
pub fn askpass_env(exe: &str, sock: &str, nonce: &str) -> (r: Vec<(String, String)>)
    ensures
        r@.map_values(|p: (String, String)| (p.0@, p.1@)) == askpass_env_spec(exe@, sock@, nonce@),
{
    let mut v: Vec<(String, String)> = Vec::new();
    v.push((text::to_owned_string("SSH_ASKPASS"), text::to_owned_string(exe)));
    v.push((text::to_owned_string("SSH_ASKPASS_REQUIRE"), text::to_owned_string("force")));
    v.push((text::to_owned_string("SSM_ASKPASS_SOCK"), text::to_owned_string(sock)));
    v.push((text::to_owned_string("SSM_ASKPASS_NONCE"), text::to_owned_string(nonce)));
    assert(v@.map_values(|p: (String, String)| (p.0@, p.1@)) =~= askpass_env_spec(exe@, sock@, nonce@));
    v
}

/// What `ssm --import` prints when the file has no importable host.
pub open spec fn nothing_to_import_spec(path: Seq<char>) -> Seq<char> {
    "No importable hosts found in "@ + path
}

/// `No importable hosts found in {path}`.
pub fn nothing_to_import_message(path: &str) -> (r: String)
    ensures
        r@ == nothing_to_import_spec(path@),
{
    let mut out = text::to_owned_string("No importable hosts found in ");
    text::push_str(&mut out, path);
    out
}

/// What `ssm --import` prints after merging: how many hosts were new, from
/// where, and how many sessions there are now.
pub open spec fn imported_spec(added: nat, path: Seq<char>, total: nat) -> Seq<char> {
    "Imported "@ + text::decimal(added) + " new host(s) from "@ + path + seq![' ', '('] + text::decimal(total)
        + " total)"@
}

/// `Imported {added} new host(s) from {path} ({total} total)`.
pub fn imported_message(added: usize, path: &str, total: usize) -> (r: String)
    ensures
        r@ == imported_spec(added as nat, path@, total as nat),
{
    let mut out = text::to_owned_string("Imported ");
    text::push_decimal_usize(&mut out, added);
    text::push_str(&mut out, " new host(s) from ");
    text::push_str(&mut out, path);
    text::push_char(&mut out, ' ');
    text::push_char(&mut out, '(');
    text::push_decimal_usize(&mut out, total);
    text::push_str(&mut out, " total)");
    assert(out@ =~= imported_spec(added as nat, path@, total as nat));
    out
}

} // verus!
