//! The `execute_command` tool: which commands may run, which hosts they may
//! reach, the sandbox permissions, and the text of the result.
use vstd::prelude::*;
use crate::text::{utf8_len, has_prefix, has_suffix, words, trim, views, seq_join, lower_text, has_char, chars_of, slice_chars, string_from_chars, byte_len, owned, push_str, str_eq, str_starts_with, str_ends_with, to_lowercase, split_whitespace_chars, char_views, trim_chars, contains_string, join_strings, copy_string, copy_strings, has_char_exec, usize_to_string, decimal};
use crate::policy::{PolicyContext, Permissions, FsPermissions, NetworkPermissions, cmd_name, cmd_basename};
use crate::config::{ExecSecurityConfig, SandboxPolicyConfig, ExecSecurityMode, ExecAskMode};
use crate::access_gate::AccessLevel;

use crate::url::{parse_url, url_parts};

verus! {

/// Most bytes of command output kept.
pub const MAX_OUTPUT_BYTES: usize = 50_000;

// ───────────────────────────── Domains ─────────────────────────────

/// A host matches a whitelist pattern: the same text, or for `*.suffix` a host
/// that ends in `suffix` and is longer than it.
pub open spec fn domain_match(pattern: Seq<char>, host: Seq<char>) -> bool {
    ||| pattern == host
    ||| (has_prefix(pattern, "*."@) && has_suffix(host, pattern.skip(2)) && utf8_len(host)
        > utf8_len(pattern.skip(2)))
}

/// Whether `host` matches the whitelist `pattern`.
pub fn domain_matches(pattern: &str, host: &str) -> (r: bool)
    ensures
        r == domain_match(pattern@, host@),
{
    if str_eq(pattern, host) {
        return true;
    }
    if str_starts_with(pattern, "*.") {
        proof {
            reveal_strlit("*.");
        }
        let pc = chars_of(pattern);
        let suffix_chars = slice_chars(pc.as_slice(), 2, pc.len());
        let suffix = string_from_chars(suffix_chars.as_slice());
        assert(suffix@ =~= pattern@.skip(2));
        return str_ends_with(host, suffix.as_str()) && byte_len(host) > byte_len(suffix.as_str());
    }
    false
}

/// Registry domains of a package manager, by command name.
pub open spec fn registry_domains(name: Seq<char>) -> Seq<Seq<char>> {
    if name == "npm"@ || name == "npx"@ || name == "yarn"@ || name == "pnpm"@ {
        seq!["registry.npmjs.org"@, "registry.yarnpkg.com"@]
    } else if name == "pip"@ || name == "pip3"@ {
        seq!["pypi.org"@, "files.pythonhosted.org"@]
    } else if name == "cargo"@ {
        seq!["crates.io"@, "static.crates.io"@]
    } else if name == "gem"@ {
        seq!["rubygems.org"@]
    } else if name == "go"@ {
        seq!["proxy.golang.org"@]
    } else {
        Seq::empty()
    }
}

/// The registry domains a package-manager command reaches.
pub fn package_manager_domains(command: &str) -> (r: Vec<String>)
    ensures
        views(r@) == registry_domains(cmd_basename(command@)),
{
    let (_name, base) = PolicyContext::command_name(command);
    let b = base.as_str();
    let mut r: Vec<String> = Vec::new();
    if str_eq(b, "npm") || str_eq(b, "npx") || str_eq(b, "yarn") || str_eq(b, "pnpm") {
        r.push(owned("registry.npmjs.org"));
        r.push(owned("registry.yarnpkg.com"));
    } else if str_eq(b, "pip") || str_eq(b, "pip3") {
        r.push(owned("pypi.org"));
        r.push(owned("files.pythonhosted.org"));
    } else if str_eq(b, "cargo") {
        r.push(owned("crates.io"));
        r.push(owned("static.crates.io"));
    } else if str_eq(b, "gem") {
        r.push(owned("rubygems.org"));
    } else if str_eq(b, "go") {
        r.push(owned("proxy.golang.org"));
    }
    assert(views(r@) =~= registry_domains(cmd_basename(command@)));
    r
}

// ───────────────────────────── URLs in a command ─────────────────────────────

/// The host and port of a token read as a URL (`None` when it is no URL or has
/// no host).
pub open spec fn url_host_port(token: Seq<char>) -> Option<(Seq<char>, Option<u16>)> {
    match url_parts(token) {
        Ok((_, Some(h), p, _)) => Some((h, p)),
        _ => None,
    }
}

fn parse_url_target(token: &str) -> (r: Option<(String, Option<u16>)>)
    ensures
        match r {
            Some((h, p)) => url_host_port(token@) == Some((h@, p)),
            None => url_host_port(token@) is None,
        },
{
    match parse_url(token) {
        Ok((_, Some(h), p, _)) => Some((h, p)),
        _ => None,
    }
}

/// The network target of a token that is a URL with a host; port 443 when the
/// URL gives none.
pub open spec fn token_target(token: Seq<char>) -> Option<(Seq<char>, u16)> {
    match url_host_port(token) {
        Some((h, p)) => Some(
            (
                h,
                match p {
                    Some(x) => x,
                    None => 443,
                },
            ),
        ),
        None => None,
    }
}

/// The network targets of a command's words, in order.
pub open spec fn targets_of(ws: Seq<Seq<char>>) -> Seq<(Seq<char>, u16)>
    decreases ws.len(),
{
    if ws.len() == 0 {
        Seq::empty()
    } else {
        let prev = targets_of(ws.drop_last());
        match token_target(ws.last()) {
            Some(t) => prev.push(t),
            None => prev,
        }
    }
}

/// The hosts and ports that the URLs among a command's words point at.
pub fn extract_network_targets(command: &str) -> (r: Vec<(String, u16)>)
    ensures
        r@.map_values(|t: (String, u16)| (t.0@, t.1)) == targets_of(words(command@)),
{
    let cs = chars_of(command);
    let ws = split_whitespace_chars(cs.as_slice());
    let ghost wv = words(command@);
    let mut out: Vec<(String, u16)> = Vec::new();
    for i in 0..ws.len()
        invariant
            char_views(ws@) == wv,
            out@.map_values(|t: (String, u16)| (t.0@, t.1)) == targets_of(wv.take(i as int)),
    {
        assert(wv.take(i + 1).drop_last() =~= wv.take(i as int));
        assert(wv[i as int] == ws@[i as int]@);
        let token = string_from_chars(ws[i].as_slice());
        let ghost before = out@.map_values(|t: (String, u16)| (t.0@, t.1));
        match parse_url_target(token.as_str()) {
            Some((h, p)) => {
                let port = match p {
                    Some(x) => x,
                    None => 443,
                };
                out.push((h, port));
                assert(out@.map_values(|t: (String, u16)| (t.0@, t.1)) =~= before.push(
                    token_target(wv[i as int]).unwrap(),
                ));
            },
            None => {},
        }
    }
    assert(wv.take(ws@.len() as int) =~= wv);
    out
}

// ───────────────────────────── Allowlist ─────────────────────────────

/// An allowlist pattern admits a command: `prefix *` admits a command whose
/// name or file name is `prefix`; another pattern admits the whole command,
/// compared in lowercase, or a command whose file name is the pattern.
pub open spec fn allowlist_entry_admits(pattern: Seq<char>, command: Seq<char>) -> bool {
    if has_suffix(pattern, " *"@) {
        let prefix = pattern.take(pattern.len() - 2);
        cmd_basename(command) == prefix || cmd_name(command) == prefix
    } else {
        lower_text(command) == lower_text(pattern) || cmd_basename(command) == pattern
    }
}

/// A command is allowed when its file name is a safe binary or an allowlist
/// pattern admits it.
pub open spec fn command_allowed(cfg: ExecSecurityConfig, command: Seq<char>) -> bool {
    ||| exists|i: int|
        0 <= i < cfg.safe_bins@.len() && #[trigger] cfg.safe_bins@[i]@ == cmd_basename(command)
    ||| exists|i: int|
        0 <= i < cfg.allowlist@.len() && allowlist_entry_admits(#[trigger] cfg.allowlist@[i]@, command)
}

fn entry_admits(pattern: &str, name: &str, base: &str, cmd_lower: &str) -> (r: bool)
    ensures
        r == (if has_suffix(pattern@, " *"@) {
            base@ == pattern@.take(pattern@.len() - 2) || name@ == pattern@.take(pattern@.len() - 2)
        } else {
            cmd_lower@ == lower_text(pattern@) || base@ == pattern@
        }),
{
    if str_ends_with(pattern, " *") {
        proof {
            reveal_strlit(" *");
        }
        let pc = chars_of(pattern);
        let prefix_chars = slice_chars(pc.as_slice(), 0, pc.len() - 2);
        let prefix = string_from_chars(prefix_chars.as_slice());
        assert(prefix@ =~= pattern@.take(pattern@.len() - 2));
        str_eq(base, prefix.as_str()) || str_eq(name, prefix.as_str())
    } else {
        let pl = to_lowercase(pattern);
        str_eq(cmd_lower, pl.as_str()) || str_eq(base, pattern)
    }
}

/// The exec tool: the workspace it runs in and the security settings of its
/// agent. (The access gate, approval registry and event bus it works with are
/// held by the caller.)
pub struct ExecuteCommandTool {
    pub workspace: String,
    pub default_timeout: u64,
    pub exec_security: ExecSecurityConfig,
    pub sandbox_config: SandboxPolicyConfig,
    pub agent_id: String,
}

impl ExecuteCommandTool {
    pub fn new(
        workspace: String,
        default_timeout: u64,
        exec_security: ExecSecurityConfig,
        sandbox_config: SandboxPolicyConfig,
        agent_id: String,
    ) -> (t: Self)
        ensures
            t == (ExecuteCommandTool {
                workspace,
                default_timeout,
                exec_security,
                sandbox_config,
                agent_id,
            }),
    {
        ExecuteCommandTool { workspace, default_timeout, exec_security, sandbox_config, agent_id }
    }

    /// Whether the command is a safe binary or matches the allowlist.
    pub fn is_command_allowed(&self, command: &str) -> (r: bool)
        ensures
            r == command_allowed(self.exec_security, command@),
    {
        let cmd_lower = to_lowercase(command);
        let (name, base) = PolicyContext::command_name(command);
        let bins = &self.exec_security.safe_bins;
        for i in 0..bins.len()
            invariant
                bins == &self.exec_security.safe_bins,
                base@ == cmd_basename(command@),
                forall|k: int| 0 <= k < i ==> #[trigger] bins@[k]@ != cmd_basename(command@),
        {
            if str_eq(bins[i].as_str(), base.as_str()) {
                assert(bins@[i as int]@ == cmd_basename(command@));
                return true;
            }
        }
        let allow = &self.exec_security.allowlist;
        for i in 0..allow.len()
            invariant
                bins == &self.exec_security.safe_bins,
                allow == &self.exec_security.allowlist,
                base@ == cmd_basename(command@),
                name@ == cmd_name(command@),
                cmd_lower@ == lower_text(command@),
                !(exists|k: int|
                    0 <= k < bins@.len() && #[trigger] bins@[k]@ == cmd_basename(command@)),
                forall|k: int| 0 <= k < i ==> !allowlist_entry_admits(#[trigger] allow@[k]@, command@),
        {
            if entry_admits(allow[i].as_str(), name.as_str(), base.as_str(), cmd_lower.as_str()) {
                assert(allowlist_entry_admits(allow@[i as int]@, command@));
                return true;
            }
        }
        false
    }
}

// ───────────────────────────── PATH ─────────────────────────────

/// The parts of a text between colons (one part for a text without colons).
pub open spec fn colon_parts(s: Seq<char>) -> Seq<Seq<char>>
    decreases s.len(),
{
    if s.len() == 0 {
        seq![Seq::empty()]
    } else {
        let prev = colon_parts(s.drop_last());
        if s.last() == ':' {
            prev.push(Seq::empty())
        } else {
            prev.update(prev.len() - 1, prev.last().push(s.last()))
        }
    }
}

proof fn lemma_colon_parts_nonempty(s: Seq<char>)
    ensures
        colon_parts(s).len() >= 1,
    decreases s.len(),
{
    if s.len() > 0 {
        lemma_colon_parts_nonempty(s.drop_last());
    }
}

/// Entries with the candidates added in order: blank candidates and ones
/// already present are skipped.
pub open spec fn with_candidates(entries: Seq<Seq<char>>, candidates: Seq<Seq<char>>) -> Seq<Seq<char>>
    decreases candidates.len(),
{
    if candidates.len() == 0 {
        entries
    } else {
        let prev = with_candidates(entries, candidates.drop_last());
        let c = candidates.last();
        if trim(c).len() == 0 || prev.contains(c) {
            prev
        } else {
            prev.push(c)
        }
    }
}

/// A PATH value with the candidate directories added after its own entries;
/// the value unchanged when an added directory holds a colon.
pub open spec fn augmented_path(current: Seq<char>, candidates: Seq<Seq<char>>) -> Seq<char> {
    let entries = with_candidates(colon_parts(current), candidates);
    if exists|i: int| 0 <= i < entries.len() && has_char(#[trigger] entries[i], ':') {
        current
    } else {
        seq_join(entries, ":"@)
    }
}

fn split_colons(s: &[char]) -> (r: Vec<String>)
    ensures
        views(r@) == colon_parts(s@),
{
    let mut parts: Vec<String> = Vec::new();
    let mut cur: Vec<char> = Vec::new();
    for i in 0..s.len()
        invariant
            views(parts@).push(cur@) == colon_parts(s@.take(i as int)),
    {
        assert(s@.take(i + 1).drop_last() =~= s@.take(i as int));
        let ghost prev = colon_parts(s@.take(i as int));
        if s[i] == ':' {
            let done = string_from_chars(cur.as_slice());
            parts.push(done);
            cur = Vec::new();
            assert(views(parts@).push(cur@) =~= prev.push(Seq::empty()));
        } else {
            cur.push(s[i]);
            assert(views(parts@).push(cur@) =~= prev.update(
                prev.len() - 1,
                prev.last().push(s@[i as int]),
            ));
        }
    }
    assert(s@.take(s@.len() as int) =~= s@);
    let last = string_from_chars(cur.as_slice());
    parts.push(last);
    parts
}

/// PATH as on the host: the current entries, then each candidate directory not
/// yet present.
pub fn augment_path_like_host(current_path: &str, candidates: &Vec<String>) -> (r: String)
    ensures
        r@ == augmented_path(current_path@, views(candidates@)),
{
    let cs = chars_of(current_path);
    let mut entries = split_colons(cs.as_slice());
    let ghost base = views(entries@);
    for i in 0..candidates.len()
        invariant
            views(entries@) == with_candidates(base, views(candidates@).take(i as int)),
    {
        let c = &candidates[i];
        assert(views(candidates@).take(i + 1).drop_last() =~= views(candidates@).take(i as int));
        assert(views(candidates@)[i as int] == c@);
        let cc = chars_of(c.as_str());
        let t = trim_chars(cc.as_slice());
        if t.len() > 0 && !contains_string(&entries, c.as_str()) {
            let ghost before = views(entries@);
            entries.push(copy_string(c));
            assert(views(entries@) =~= before.push(c@));
        }
    }
    assert(views(candidates@).take(candidates@.len() as int) =~= views(candidates@));
    let mut colon = false;
    for j in 0..entries.len()
        invariant
            colon == (exists|k: int| 0 <= k < j && has_char(#[trigger] views(entries@)[k], ':')),
    {
        let ec = chars_of(entries[j].as_str());
        assert(views(entries@)[j as int] == ec@);
        if has_char_exec(ec.as_slice(), ':') {
            colon = true;
        }
    }
    if colon {
        owned(current_path)
    } else {
        join_strings(&entries, ":")
    }
}

/// The directories tried for PATH: the system ones, then, when `home` is known,
/// the user's tool directories under it.
pub open spec fn path_candidates(home: Option<Seq<char>>) -> Seq<Seq<char>> {
    let system = seq![
        "/opt/homebrew/bin"@,
        "/opt/homebrew/sbin"@,
        "/usr/local/bin"@,
        "/usr/local/sbin"@,
        "/usr/bin"@,
        "/bin"@,
        "/usr/sbin"@,
        "/sbin"@,
    ];
    match home {
        Some(h) => system + seq![
            h + "/.clawhive/bin"@,
            h + "/.cargo/bin"@,
            h + "/.bun/bin"@,
            h + "/.local/bin"@,
            h + "/bin"@,
        ],
        None => system,
    }
}

fn under(home: &str, rest: &str) -> (r: String)
    ensures
        r@ == home@ + rest@,
{
    let mut s = owned(home);
    push_str(&mut s, rest);
    s
}

/// The PATH candidates for the given home directory (`None` when `HOME` is
/// unset).
pub fn path_candidates_for_home(home: Option<&str>) -> (r: Vec<String>)
    ensures
        views(r@) == path_candidates(
            match home {
                Some(h) => Some(h@),
                None => None,
            },
        ),
{
    let mut c: Vec<String> = Vec::new();
    c.push(owned("/opt/homebrew/bin"));
    c.push(owned("/opt/homebrew/sbin"));
    c.push(owned("/usr/local/bin"));
    c.push(owned("/usr/local/sbin"));
    c.push(owned("/usr/bin"));
    c.push(owned("/bin"));
    c.push(owned("/usr/sbin"));
    c.push(owned("/sbin"));
    if let Some(h) = home {
        c.push(under(h, "/.clawhive/bin"));
        c.push(under(h, "/.cargo/bin"));
        c.push(under(h, "/.bun/bin"));
        c.push(under(h, "/.local/bin"));
        c.push(under(h, "/bin"));
    }
    assert(views(c@) =~= path_candidates(
        match home {
            Some(h) => Some(h@),
            None => None,
        },
    ));
    c
}

// ───────────────────────────── Sandbox permissions ─────────────────────────────

/// A directory and everything under it, as glob patterns.
pub open spec fn dir_patterns(dir: Seq<char>) -> Seq<Seq<char>> {
    seq![dir, dir + "/**"@]
}

/// Read patterns: the workspace and every extra directory.
pub open spec fn read_patterns(workspace: Seq<char>, extra: Seq<(Seq<char>, AccessLevel)>) -> Seq<Seq<char>>
    decreases extra.len(),
{
    if extra.len() == 0 {
        dir_patterns(workspace)
    } else {
        read_patterns(workspace, extra.drop_last()) + dir_patterns(extra.last().0)
    }
}

/// Write patterns: the workspace and the extra directories granted read-write.
pub open spec fn write_patterns(workspace: Seq<char>, extra: Seq<(Seq<char>, AccessLevel)>) -> Seq<Seq<char>>
    decreases extra.len(),
{
    if extra.len() == 0 {
        dir_patterns(workspace)
    } else if extra.last().1 == AccessLevel::Rw {
        write_patterns(workspace, extra.drop_last()) + dir_patterns(extra.last().0)
    } else {
        write_patterns(workspace, extra.drop_last())
    }
}

pub open spec fn dir_views(extra: Seq<(String, AccessLevel)>) -> Seq<(Seq<char>, AccessLevel)> {
    extra.map_values(|d: (String, AccessLevel)| (d.0@, d.1))
}

fn push_dir(v: &mut Vec<String>, dir: &str)
    ensures
        views(final(v)@) == views(old(v)@) + dir_patterns(dir@),
{
    let ghost before = views(v@);
    v.push(owned(dir));
    v.push(under(dir, "/**"));
    assert(views(v@) =~= before + dir_patterns(dir@));
}

/// The sandbox permissions of a command: read access to the workspace and the
/// extra directories, write access to the workspace and the read-write ones, the
/// allowed executables and environment variables, and all hosts or none.
pub fn base_permissions(
    workspace: &str,
    extra_dirs: &Vec<(String, AccessLevel)>,
    exec_allow: &Vec<String>,
    network_allowed: bool,
    env_inherit: &Vec<String>,
) -> (p: Permissions)
    ensures
        views(p.fs.read@) == read_patterns(workspace@, dir_views(extra_dirs@)),
        views(p.fs.write@) == write_patterns(workspace@, dir_views(extra_dirs@)),
        views(p.exec_commands@) == views(exec_allow@),
        views(p.network.allow@) == (if network_allowed {
            seq!["*:*"@]
        } else {
            Seq::empty()
        }),
        views(p.env@) == views(env_inherit@),
        p.services@.len() == 0,
{
    let mut read: Vec<String> = Vec::new();
    let mut write: Vec<String> = Vec::new();
    push_dir(&mut read, workspace);
    push_dir(&mut write, workspace);
    let ghost ev = dir_views(extra_dirs@);
    for i in 0..extra_dirs.len()
        invariant
            ev == dir_views(extra_dirs@),
            views(read@) == read_patterns(workspace@, ev.take(i as int)),
            views(write@) == write_patterns(workspace@, ev.take(i as int)),
    {
        assert(ev.take(i + 1).drop_last() =~= ev.take(i as int));
        assert(ev.take(i + 1).last() == (extra_dirs@[i as int].0@, extra_dirs@[i as int].1));
        let (dir, level) = (&extra_dirs[i].0, extra_dirs[i].1);
        push_dir(&mut read, dir.as_str());
        if level == AccessLevel::Rw {
            push_dir(&mut write, dir.as_str());
        }
    }
    assert(ev.take(extra_dirs@.len() as int) =~= ev);
    let mut allow: Vec<String> = Vec::new();
    if network_allowed {
        allow.push(owned("*:*"));
    }
    assert(views(allow@) =~= (if network_allowed {
        seq!["*:*"@]
    } else {
        Seq::<Seq<char>>::empty()
    }));
    Permissions {
        fs: FsPermissions { read, write },
        network: NetworkPermissions { allow },
        exec_commands: copy_strings(exec_allow),
        env: copy_strings(env_inherit),
        services: Vec::new(),
    }
}

// ───────────────────────────── Running a command ─────────────────────────────

/// What the exec security settings decide before a command runs.
pub enum ExecGate {
    /// The command is refused with this message.
    Refuse(String),
    /// The user must approve first; `listed` tells whether the command was
    /// allowed by the allowlist (approval is then asked for every command).
    AskApproval { listed: bool },
    /// The command may go on to the policy checks.
    Proceed,
}

/// The message refusing a command outside the allowlist when nobody can be asked.
pub open spec fn not_listed_message(command: Seq<char>) -> Seq<char> {
    "Command not in allowlist. To run this command, add a matching pattern to exec_security.allowlist in agent config. Command: "@
        + command
}

/// The exec security decision: `deny` refuses everything; `allowlist` runs
/// listed (or runtime-approved) commands and asks for or refuses the rest by the
/// ask mode; `full` runs everything; ask mode `always` asks for every command
/// that is not refused.
pub open spec fn exec_gate_spec(cfg: ExecSecurityConfig, command: Seq<char>, runtime_allowed: bool) -> ExecGateView {
    match cfg.security {
        ExecSecurityMode::Deny => ExecGateView::Refuse(
            "Command denied: exec is disabled for this agent"@,
        ),
        ExecSecurityMode::Allowlist => if !(command_allowed(cfg, command) || runtime_allowed) {
            match cfg.ask {
                ExecAskMode::Off => ExecGateView::Refuse(not_listed_message(command)),
                _ => ExecGateView::AskApproval { listed: false },
            }
        } else if cfg.ask == ExecAskMode::Always {
            ExecGateView::AskApproval { listed: true }
        } else {
            ExecGateView::Proceed
        },
        ExecSecurityMode::Full => if cfg.ask == ExecAskMode::Always {
            ExecGateView::AskApproval { listed: true }
        } else {
            ExecGateView::Proceed
        },
    }
}

/// Model of an exec gate decision.
pub enum ExecGateView {
    Refuse(Seq<char>),
    AskApproval { listed: bool },
    Proceed,
}

impl View for ExecGate {
    type V = ExecGateView;

    open spec fn view(&self) -> ExecGateView {
        match self {
            ExecGate::Refuse(m) => ExecGateView::Refuse(m@),
            ExecGate::AskApproval { listed } => ExecGateView::AskApproval { listed: *listed },
            ExecGate::Proceed => ExecGateView::Proceed,
        }
    }
}

impl ExecuteCommandTool {
    /// The exec security decision for a command; `runtime_allowed` tells whether
    /// the user approved it earlier for good.
    pub fn exec_gate(&self, command: &str, runtime_allowed: bool) -> (g: ExecGate)
        ensures
            g@ == exec_gate_spec(self.exec_security, command@, runtime_allowed),
    {
        match self.exec_security.security {
            ExecSecurityMode::Deny => ExecGate::Refuse(
                owned("Command denied: exec is disabled for this agent"),
            ),
            ExecSecurityMode::Allowlist => {
                let allowed = self.is_command_allowed(command) || runtime_allowed;
                if !allowed {
                    match self.exec_security.ask {
                        ExecAskMode::Off => {
                            let mut m = owned(
                                "Command not in allowlist. To run this command, add a matching pattern to exec_security.allowlist in agent config. Command: ",
                            );
                            push_str(&mut m, command);
                            ExecGate::Refuse(m)
                        },
                        _ => ExecGate::AskApproval { listed: false },
                    }
                } else if self.exec_security.ask == ExecAskMode::Always {
                    ExecGate::AskApproval { listed: true }
                } else {
                    ExecGate::Proceed
                }
            },
            ExecSecurityMode::Full => {
                if self.exec_security.ask == ExecAskMode::Always {
                    ExecGate::AskApproval { listed: true }
                } else {
                    ExecGate::Proceed
                }
            },
        }
    }
}

/// A user's answer to an approval request.
#[derive(Debug, Clone, Copy, PartialEq, Eq, Structural)]
pub enum ApprovalDecision {
    AllowOnce,
    AlwaysAllow,
    Deny,
}

/// What comes of an approval request.
pub enum ApprovalOutcome {
    /// Go ahead.
    Allowed,
    /// Go ahead, and remember this pattern as allowed from now on.
    AllowedFromNowOn { pattern: String },
    /// Refused, with this message.
    Refused(String),
}

/// The pattern remembered when a command is always allowed: its first word (the
/// whole command when it has none) followed by ` *`.
pub open spec fn always_pattern(command: Seq<char>) -> Seq<char> {
    (if words(command).len() > 0 {
        words(command)[0]
    } else {
        command
    }) + " *"@
}

/// The outcome of asking to run a command: `None` when nobody could be asked,
/// `Some(None)` when the request went unanswered, else the answer.
pub fn exec_approval_outcome(answer: Option<Option<ApprovalDecision>>, command: &str, listed: bool) -> (r: ApprovalOutcome)
    ensures
        match answer {
            None => r matches ApprovalOutcome::Refused(m) && m@ == (if listed {
                "Command not in allowlist and no approval UI available"@
            } else {
                "Command not in allowlist and no approval UI available"@ + ": "@ + command@
            }),
            Some(Some(ApprovalDecision::AllowOnce)) => r matches ApprovalOutcome::Allowed,
            Some(Some(ApprovalDecision::AlwaysAllow)) => r matches ApprovalOutcome::AllowedFromNowOn {
                pattern,
            } && pattern@ == always_pattern(command@),
            _ => r matches ApprovalOutcome::Refused(m) && m@ == "Command denied by user"@,
        },
{
    match answer {
        None => {
            let mut m = owned("Command not in allowlist and no approval UI available");
            if !listed {
                push_str(&mut m, ": ");
                push_str(&mut m, command);
            }
            ApprovalOutcome::Refused(m)
        },
        Some(Some(ApprovalDecision::AllowOnce)) => ApprovalOutcome::Allowed,
        Some(Some(ApprovalDecision::AlwaysAllow)) => {
            let cs = chars_of(command);
            let ws = split_whitespace_chars(cs.as_slice());
            let mut p = if ws.len() > 0 {
                assert(ws@[0]@ == words(command@)[0]);
                string_from_chars(ws[0].as_slice())
            } else {
                owned(command)
            };
            push_str(&mut p, " *");
            ApprovalOutcome::AllowedFromNowOn { pattern: p }
        },
        _ => ApprovalOutcome::Refused(owned("Command denied by user")),
    }
}

/// `host:port`.
pub open spec fn host_port(host: Seq<char>, port: u16) -> Seq<char> {
    host + ":"@ + decimal(port as nat)
}

fn host_port_text(host: &str, port: u16) -> (r: String)
    ensures
        r@ == host_port(host@, port),
{
    let mut t = owned(host);
    push_str(&mut t, ":");
    let p = usize_to_string(port as usize);
    push_str(&mut t, p.as_str());
    t
}

/// The outcome of asking to reach `host:port`, with the answer given as for
/// commands.
pub fn network_approval_outcome(answer: Option<Option<ApprovalDecision>>, host: &str, port: u16) -> (r: ApprovalOutcome)
    ensures
        match answer {
            None => r matches ApprovalOutcome::Refused(m) && m@
                == "Network access requires approval but no approval UI available"@,
            Some(Some(ApprovalDecision::AllowOnce)) => r matches ApprovalOutcome::Allowed,
            Some(Some(ApprovalDecision::AlwaysAllow)) => r matches ApprovalOutcome::AllowedFromNowOn {
                pattern,
            } && pattern@ == host_port(host@, port),
            _ => r matches ApprovalOutcome::Refused(m) && m@ == "Network access to "@ + host_port(
                host@,
                port,
            ) + " denied by user"@,
        },
{
    match answer {
        None => ApprovalOutcome::Refused(
            owned("Network access requires approval but no approval UI available"),
        ),
        Some(Some(ApprovalDecision::AllowOnce)) => ApprovalOutcome::Allowed,
        Some(Some(ApprovalDecision::AlwaysAllow)) => ApprovalOutcome::AllowedFromNowOn {
            pattern: host_port_text(host, port),
        },
        _ => {
            let mut m = owned("Network access to ");
            let t = host_port_text(host, port);
            push_str(&mut m, t.as_str());
            push_str(&mut m, " denied by user");
            ApprovalOutcome::Refused(m)
        },
    }
}

/// What to do about one network target of a command.
pub enum NetworkStep {
    /// Refused outright, with this message.
    Blocked(String),
    /// The target may be reached.
    Allowed,
    /// The user must approve the target.
    NeedsApproval,
}

/// A host matches one of the patterns.
pub open spec fn any_domain_match(patterns: Seq<String>, host: Seq<char>) -> bool {
    exists|i: int| 0 <= i < patterns.len() && domain_match(#[trigger] patterns[i]@, host)
}

fn matches_any(patterns: &Vec<String>, host: &str) -> (r: bool)
    ensures
        r == any_domain_match(patterns@, host@),
{
    for i in 0..patterns.len()
        invariant
            forall|k: int| 0 <= k < i ==> !domain_match(#[trigger] patterns@[k]@, host@),
    {
        if domain_matches(patterns[i].as_str(), host) {
            assert(domain_match(patterns@[i as int]@, host@));
            return true;
        }
    }
    false
}

/// The decision for a network target: a target outside the whitelist that the
/// hard baseline denies is blocked whatever the user says; one that is neither
/// whitelisted, a registry of the package manager, nor approved before needs
/// approval; the rest may be reached.
pub fn network_target_step(host: &str, port: u16, whitelist: &Vec<String>, registry_domains: &Vec<String>, runtime_allowed: bool) -> (r: NetworkStep)
    ensures
        match r {
            NetworkStep::Blocked(m) => !any_domain_match(whitelist@, host@)
                && crate::policy::network_denied_lower(lower_text(host@)) && m@ == "Network access denied: "@
                + host_port(host@, port)
                + " is a private/loopback address blocked by hard baseline. "@,
            NetworkStep::NeedsApproval => !(!any_domain_match(whitelist@, host@)
                && crate::policy::network_denied_lower(lower_text(host@)))
                && !any_domain_match(whitelist@, host@) && !any_domain_match(registry_domains@, host@)
                && !runtime_allowed,
            NetworkStep::Allowed => !(!any_domain_match(whitelist@, host@)
                && crate::policy::network_denied_lower(lower_text(host@))) && (any_domain_match(
                whitelist@,
                host@,
            ) || any_domain_match(registry_domains@, host@) || runtime_allowed),
        },
{
    let whitelisted = matches_any(whitelist, host);
    if !whitelisted && crate::policy::HardBaseline::network_denied(host, port) {
        let mut m = owned("Network access denied: ");
        let t = host_port_text(host, port);
        push_str(&mut m, t.as_str());
        push_str(&mut m, " is a private/loopback address blocked by hard baseline. ");
        return NetworkStep::Blocked(m);
    }
    let pkg = matches_any(registry_domains, host);
    if !whitelisted && !pkg && !runtime_allowed {
        NetworkStep::NeedsApproval
    } else {
        NetworkStep::Allowed
    }
}

/// Why the policy refuses a command, if it does: the tool output and the reason
/// recorded in the audit log. The hard baseline comes first, then the exec
/// permissions of the calling context.
pub fn exec_policy_refusal(ctx: &crate::tool::ToolContext, command: &str) -> (r: Option<(String, String)>)
    ensures
        match r {
            Some((out, reason)) => if crate::policy::exec_denied_lower(lower_text(command@)) {
                out@ == "Command denied: matches dangerous pattern (hard baseline)"@ && reason@
                    == "command blocked by hard baseline"@
            } else {
                !ctx.policy_ctx.exec_allowed(command@) && out@
                    == "Command denied: not in allowed exec list for this skill"@ && reason@
                    == "command not in allowed exec list"@
            },
            None => !crate::policy::exec_denied_lower(lower_text(command@))
                && ctx.policy_ctx.exec_allowed(command@),
        },
{
    if crate::policy::HardBaseline::exec_denied(command) {
        return Some(
            (
                owned("Command denied: matches dangerous pattern (hard baseline)"),
                owned("command blocked by hard baseline"),
            ),
        );
    }
    if !ctx.check_exec(command) {
        return Some(
            (
                owned("Command denied: not in allowed exec list for this skill"),
                owned("command not in allowed exec list"),
            ),
        );
    }
    None
}

// ───────────────────────────── One command run ─────────────────────────────

/// Where a command run stands between the answers it waits for.
#[derive(Clone, Copy, PartialEq, Eq, Structural)]
pub enum ExecPhase {
    /// Nothing decided yet.
    Start,
    /// Waiting for the user to approve the command.
    AwaitingApproval,
    /// Waiting to learn whether the target at `index` was approved for good.
    CheckingTarget { index: usize },
    /// Waiting for the user to approve reaching the target at `index`.
    AwaitingTargetApproval { index: usize },
    /// The run has been refused or may run; nothing more happens.
    Finished,
}

/// What the caller of a command run hands back.
pub enum ExecEvent {
    /// The run begins; whether the command was approved for good earlier.
    Begin { runtime_allowed: bool },
    /// The user answered an approval request: `Some` with the refusal text when
    /// refused (see `exec_approval_outcome` and `network_approval_outcome`).
    Answered { refusal: Option<String> },
    /// Whether the current target was approved for good earlier.
    TargetChecked { runtime_allowed: bool },
}

/// Model of an event.
pub enum ExecEventView {
    Begin { runtime_allowed: bool },
    Answered { refusal: Option<Seq<char>> },
    TargetChecked { runtime_allowed: bool },
}

impl View for ExecEvent {
    type V = ExecEventView;

    open spec fn view(&self) -> ExecEventView {
        match self {
            ExecEvent::Begin { runtime_allowed } => ExecEventView::Begin { runtime_allowed: *runtime_allowed },
            ExecEvent::Answered { refusal } => ExecEventView::Answered {
                refusal: match refusal {
                    Some(m) => Some(m@),
                    None => None,
                },
            },
            ExecEvent::TargetChecked { runtime_allowed } => ExecEventView::TargetChecked {
                runtime_allowed: *runtime_allowed,
            },
        }
    }
}

/// What the caller of a command run is to do next.
pub enum ExecAction {
    /// Ask the user to approve the command.
    AskApproval { listed: bool },
    /// Learn whether reaching this target was approved for good earlier.
    CheckTarget { host: String, port: u16 },
    /// Ask the user to approve reaching this target.
    AskTargetApproval { host: String, port: u16 },
    /// Answer with this error, and record the reason in the audit log when there
    /// is one.
    Refuse { content: String, audit_reason: Option<String> },
    /// Run the command.
    Run,
    /// The event does not fit where the run stands: nothing to do.
    Nothing,
}

/// Model of an action.
pub enum ExecActionView {
    AskApproval { listed: bool },
    CheckTarget { host: Seq<char>, port: u16 },
    AskTargetApproval { host: Seq<char>, port: u16 },
    Refuse { content: Seq<char>, audit_reason: Option<Seq<char>> },
    Run,
    Nothing,
}

impl View for ExecAction {
    type V = ExecActionView;

    open spec fn view(&self) -> ExecActionView {
        match self {
            ExecAction::AskApproval { listed } => ExecActionView::AskApproval { listed: *listed },
            ExecAction::CheckTarget { host, port } => ExecActionView::CheckTarget { host: host@, port: *port },
            ExecAction::AskTargetApproval { host, port } => ExecActionView::AskTargetApproval {
                host: host@,
                port: *port,
            },
            ExecAction::Refuse { content, audit_reason } => ExecActionView::Refuse {
                content: content@,
                audit_reason: match audit_reason {
                    Some(m) => Some(m@),
                    None => None,
                },
            },
            ExecAction::Run => ExecActionView::Run,
            ExecAction::Nothing => ExecActionView::Nothing,
        }
    }
}

/// The refusal of a target that the hard baseline blocks.
pub open spec fn blocked_target_message(host: Seq<char>, port: u16) -> Seq<char> {
    "Network access denied: "@ + host_port(host, port) + " is a private/loopback address blocked by hard baseline. "@
}

/// One run of a command through the checks that come before it runs: the exec
/// security settings and their approval, then (when the sandbox asks before
/// network access) each network target, then the hard baseline and the exec
/// permissions of the calling context. The caller performs each action and
/// hands back what came of it.
pub struct ExecRun<'a> {
    pub tool: &'a ExecuteCommandTool,
    pub ctx: &'a crate::tool::ToolContext,
    pub command: String,
    /// The network targets to check: those of the command when the sandbox asks
    /// before network access, else none.
    pub targets: Vec<(String, u16)>,
    /// Hosts the sandbox lets the command reach.
    pub whitelist: Vec<String>,
    /// Registry hosts of the package manager the command runs.
    pub registry: Vec<String>,
    pub phase: ExecPhase,
}

impl<'a> ExecRun<'a> {
    /// The hard baseline blocks the target at `k`, which the whitelist does not
    /// hold.
    pub open spec fn target_blocked(&self, k: int) -> bool {
        !any_domain_match(self.whitelist@, self.targets@[k].0@)
            && crate::policy::network_denied_lower(lower_text(self.targets@[k].0@))
    }

    /// What every state of a run keeps: past the start, the exec mode is not
    /// `deny`; while a target is checked, no target up to it is blocked.
    pub open spec fn wf(&self) -> bool {
        match self.phase {
            ExecPhase::AwaitingApproval => !(self.tool.exec_security.security is Deny),
            ExecPhase::CheckingTarget { index } | ExecPhase::AwaitingTargetApproval { index } => {
                &&& !(self.tool.exec_security.security is Deny)
                &&& index < self.targets@.len()
                &&& forall|k: int| 0 <= k <= index ==> !#[trigger] self.target_blocked(k)
            },
            _ => true,
        }
    }

    /// The last check: the hard baseline, then the exec permissions.
    pub open spec fn policy_outcome(&self) -> ExecActionView {
        if crate::policy::exec_denied_lower(lower_text(self.command@)) {
            ExecActionView::Refuse {
                content: "Command denied: matches dangerous pattern (hard baseline)"@,
                audit_reason: Some("command blocked by hard baseline"@),
            }
        } else if !self.ctx.policy_ctx.exec_allowed(self.command@) {
            ExecActionView::Refuse {
                content: "Command denied: not in allowed exec list for this skill"@,
                audit_reason: Some("command not in allowed exec list"@),
            }
        } else {
            ExecActionView::Run
        }
    }

    /// Going on from the target at `i`: a blocked target refuses the run, a
    /// whitelisted or registry target is passed, another must be checked; after
    /// the last target comes the policy check.
    pub open spec fn resume_from(&self, i: int) -> (ExecPhase, ExecActionView)
        decreases self.targets@.len() - i,
    {
        if i >= self.targets@.len() {
            (ExecPhase::Finished, self.policy_outcome())
        } else if self.target_blocked(i) {
            (
                ExecPhase::Finished,
                ExecActionView::Refuse {
                    content: blocked_target_message(self.targets@[i].0@, self.targets@[i].1),
                    audit_reason: None,
                },
            )
        } else if any_domain_match(self.whitelist@, self.targets@[i].0@) || any_domain_match(
            self.registry@,
            self.targets@[i].0@,
        ) {
            self.resume_from(i + 1)
        } else {
            (
                ExecPhase::CheckingTarget { index: i as usize },
                ExecActionView::CheckTarget { host: self.targets@[i].0@, port: self.targets@[i].1 },
            )
        }
    }

    /// The next phase and action for an event.
    pub open spec fn step_spec(&self, event: ExecEventView) -> (ExecPhase, ExecActionView) {
        match (self.phase, event) {
            (ExecPhase::Start, ExecEventView::Begin { runtime_allowed }) => match exec_gate_spec(
                self.tool.exec_security,
                self.command@,
                runtime_allowed,
            ) {
                ExecGateView::Refuse(m) => (
                    ExecPhase::Finished,
                    ExecActionView::Refuse { content: m, audit_reason: None },
                ),
                ExecGateView::AskApproval { listed } => (
                    ExecPhase::AwaitingApproval,
                    ExecActionView::AskApproval { listed },
                ),
                ExecGateView::Proceed => self.resume_from(0),
            },
            (ExecPhase::AwaitingApproval, ExecEventView::Answered { refusal }) => match refusal {
                Some(m) => (ExecPhase::Finished, ExecActionView::Refuse { content: m, audit_reason: None }),
                None => self.resume_from(0),
            },
            (ExecPhase::CheckingTarget { index }, ExecEventView::TargetChecked { runtime_allowed }) => {
                if runtime_allowed {
                    self.resume_from(index + 1)
                } else {
                    (
                        ExecPhase::AwaitingTargetApproval { index },
                        ExecActionView::AskTargetApproval {
                            host: self.targets@[index as int].0@,
                            port: self.targets@[index as int].1,
                        },
                    )
                }
            },
            (ExecPhase::AwaitingTargetApproval { index }, ExecEventView::Answered { refusal }) => {
                match refusal {
                    Some(m) => (
                        ExecPhase::Finished,
                        ExecActionView::Refuse { content: m, audit_reason: None },
                    ),
                    None => self.resume_from(index + 1),
                }
            },
            _ => (self.phase, ExecActionView::Nothing),
        }
    }

    /// The same run, whatever its phase.
    pub open spec fn same_run(&self, other: &ExecRun<'a>) -> bool {
        &&& self.tool == other.tool
        &&& self.ctx == other.ctx
        &&& self.command@ == other.command@
        &&& self.targets@ == other.targets@
        &&& self.whitelist@ == other.whitelist@
        &&& self.registry@ == other.registry@
    }

    /// A run of `command` that has not begun.
    pub fn new(
        tool: &'a ExecuteCommandTool,
        ctx: &'a crate::tool::ToolContext,
        command: String,
        targets: Vec<(String, u16)>,
        whitelist: Vec<String>,
        registry: Vec<String>,
    ) -> (r: Self)
        ensures
            r.wf(),
            r.phase == ExecPhase::Start,
            r.tool == tool,
            r.ctx == ctx,
            r.command@ == command@,
            r.targets@ == targets@,
            r.whitelist@ == whitelist@,
            r.registry@ == registry@,
    {
        ExecRun { tool, ctx, command, targets, whitelist, registry, phase: ExecPhase::Start }
    }

    proof fn lemma_resume(&self, i: int)
        requires
            0 <= i <= self.targets@.len(),
        ensures
            match self.resume_from(i).0 {
                ExecPhase::CheckingTarget { index } => i <= index < self.targets@.len() && forall|k: int|
                    i <= k <= index ==> !#[trigger] self.target_blocked(k),
                ExecPhase::Finished => true,
                _ => false,
            },
            self.resume_from(i).1 is Run ==> self.resume_from(i).1 == self.policy_outcome() && self.resume_from(
                i,
            ).0 == ExecPhase::Finished && forall|k: int|
                i <= k < self.targets@.len() ==> !#[trigger] self.target_blocked(k),
        decreases self.targets@.len() - i,
    {
        assert(self.targets@.len() == self.targets.len());
        if i < self.targets@.len() && !self.target_blocked(i) && (any_domain_match(
            self.whitelist@,
            self.targets@[i].0@,
        ) || any_domain_match(self.registry@, self.targets@[i].0@)) {
            self.lemma_resume(i + 1);
            assert forall|k: int| i <= k < self.targets@.len() && self.resume_from(i).1 is Run implies !#[trigger] self.target_blocked(k) by {
                if k > i {
                    assert(i + 1 <= k);
                }
            }
            match self.resume_from(i).0 {
                ExecPhase::CheckingTarget { index } => {
                    assert forall|k: int| i <= k <= index implies !#[trigger] self.target_blocked(k) by {
                        if k > i {
                            assert(i + 1 <= k);
                        }
                    }
                },
                _ => {},
            }
        }
    }

    proof fn lemma_continue(&self, i: int)
        requires
            0 <= i <= self.targets@.len(),
            forall|k: int| 0 <= k < i ==> !#[trigger] self.target_blocked(k),
        ensures
            match self.resume_from(i).0 {
                ExecPhase::CheckingTarget { index } => index < self.targets@.len() && forall|k: int|
                    0 <= k <= index ==> !#[trigger] self.target_blocked(k),
                ExecPhase::Finished => true,
                _ => false,
            },
            self.resume_from(i).1 is Run ==> {
                &&& self.policy_outcome() is Run
                &&& self.resume_from(i).0 == ExecPhase::Finished
                &&& forall|k: int| 0 <= k < self.targets@.len() ==> !#[trigger] self.target_blocked(k)
            },
    {
        self.lemma_resume(i);
        match self.resume_from(i).0 {
            ExecPhase::CheckingTarget { index } => {
                assert forall|k: int| 0 <= k <= index implies !#[trigger] self.target_blocked(k) by {
                    if k >= i {
                        assert(i <= k <= index);
                    }
                }
            },
            _ => {},
        }
        if self.resume_from(i).1 is Run {
            assert forall|k: int| 0 <= k < self.targets@.len() implies !#[trigger] self.target_blocked(k) by {
                if k >= i {
                    assert(i <= k < self.targets@.len());
                }
            }
        }
    }

    /// A command that the hard baseline denies never runs: whatever the exec
    /// settings, the approvals and the network answers, no step of its run
    /// says to run it.
    pub proof fn law_baseline_denied_never_runs(&self, event: ExecEventView)
        requires
            self.wf(),
            crate::policy::exec_denied_lower(lower_text(self.command@)),
        ensures
            !(self.step_spec(event).1 is Run),
    {
        match (self.phase, event) {
            (ExecPhase::Start, ExecEventView::Begin { .. }) => self.lemma_resume(0),
            (ExecPhase::AwaitingApproval, ExecEventView::Answered { .. }) => self.lemma_resume(0),
            (ExecPhase::CheckingTarget { index }, ExecEventView::TargetChecked { .. }) => self.lemma_resume(
                index + 1,
            ),
            (ExecPhase::AwaitingTargetApproval { index }, ExecEventView::Answered { .. }) => self.lemma_resume(
                index + 1,
            ),
            _ => {},
        }
    }

    fn resume(&self, from: usize) -> (r: (ExecPhase, ExecAction))
        requires
            from <= self.targets@.len(),
        ensures
            (r.0, r.1@) == self.resume_from(from as int),
    {
        let mut i = from;
        while i < self.targets.len()
            invariant
                from <= i <= self.targets@.len(),
                self.resume_from(from as int) == self.resume_from(i as int),
            decreases self.targets@.len() - i,
        {
            let port = self.targets[i].1;
            match network_target_step(self.targets[i].0.as_str(), port, &self.whitelist, &self.registry, false) {
                NetworkStep::Blocked(m) => {
                    return (ExecPhase::Finished, ExecAction::Refuse { content: m, audit_reason: None });
                },
                NetworkStep::NeedsApproval => {
                    let host = copy_string(&self.targets[i].0);
                    return (ExecPhase::CheckingTarget { index: i }, ExecAction::CheckTarget { host, port });
                },
                NetworkStep::Allowed => {
                    i = i + 1;
                },
            }
        }
        match exec_policy_refusal(self.ctx, self.command.as_str()) {
            Some((content, reason)) => (
                ExecPhase::Finished,
                ExecAction::Refuse { content, audit_reason: Some(reason) },
            ),
            None => (ExecPhase::Finished, ExecAction::Run),
        }
    }

    /// Takes what came of the last action and gives the next one. A command
    /// runs only past the exec settings, with no target that the hard baseline
    /// blocks, and past the hard baseline and the exec permissions, whatever
    /// the user approved.
    pub fn step(&mut self, event: ExecEvent) -> (r: ExecAction)
        requires
            old(self).wf(),
        ensures
            final(self).wf(),
            final(self).same_run(old(self)),
            (final(self).phase, r@) == old(self).step_spec(event@),
            r@ is Run ==> {
                &&& !(old(self).tool.exec_security.security is Deny)
                &&& !crate::policy::exec_denied_lower(lower_text(old(self).command@))
                &&& old(self).ctx.policy_ctx.exec_allowed(old(self).command@)
                &&& forall|k: int| 0 <= k < old(self).targets@.len() ==> !#[trigger] old(self).target_blocked(k)
                &&& final(self).phase == ExecPhase::Finished
            },
    {
        let ghost pre = *self;
        let (phase, action) = match (self.phase, event) {
            (ExecPhase::Start, ExecEvent::Begin { runtime_allowed }) => {
                match self.tool.exec_gate(self.command.as_str(), runtime_allowed) {
                    ExecGate::Refuse(m) => (ExecPhase::Finished, ExecAction::Refuse { content: m, audit_reason: None }),
                    ExecGate::AskApproval { listed } => (ExecPhase::AwaitingApproval, ExecAction::AskApproval { listed }),
                    ExecGate::Proceed => {
                        proof {
                            self.lemma_continue(0);
                        }
                        self.resume(0)
                    },
                }
            },
            (ExecPhase::AwaitingApproval, ExecEvent::Answered { refusal }) => match refusal {
                Some(m) => (ExecPhase::Finished, ExecAction::Refuse { content: m, audit_reason: None }),
                None => {
                    proof {
                        self.lemma_continue(0);
                    }
                    self.resume(0)
                },
            },
            (ExecPhase::CheckingTarget { index }, ExecEvent::TargetChecked { runtime_allowed }) => {
                assert(index < self.targets.len());
                if runtime_allowed {
                    proof {
                        self.lemma_continue(index + 1);
                    }
                    self.resume(index + 1)
                } else {
                    let host = copy_string(&self.targets[index].0);
                    let port = self.targets[index].1;
                    (ExecPhase::AwaitingTargetApproval { index }, ExecAction::AskTargetApproval { host, port })
                }
            },
            (ExecPhase::AwaitingTargetApproval { index }, ExecEvent::Answered { refusal }) => match refusal {
                Some(m) => (ExecPhase::Finished, ExecAction::Refuse { content: m, audit_reason: None }),
                None => {
                    assert(index < self.targets.len());
                    proof {
                        self.lemma_continue(index + 1);
                    }
                    self.resume(index + 1)
                },
            },
            (p, _) => (p, ExecAction::Nothing),
        };
        self.phase = phase;
        proof {
            assert forall|k: int| #[trigger] self.target_blocked(k) == pre.target_blocked(k) by {}
        }
        action
    }
}

/// A command as logged: cut to 200 bytes (whole characters) with `...`.
pub open spec fn preview(command: Seq<char>) -> Seq<char> {
    if utf8_len(command) > 200 {
        command.take(crate::text::floor_char_count(command, 200)) + "..."@
    } else {
        command
    }
}

/// The command as it is logged.
pub fn command_preview(command: &str) -> (r: String)
    ensures
        r@ == preview(command@),
{
    if byte_len(command) > 200 {
        let cs = chars_of(command);
        let end = crate::text::floor_char_index(cs.as_slice(), 200);
        let head = slice_chars(cs.as_slice(), 0, end);
        let mut r = string_from_chars(head.as_slice());
        push_str(&mut r, "...");
        assert(head@ =~= command@.take(end as int));
        r
    } else {
        owned(command)
    }
}

/// Seconds a command may run: the given timeout, at least one.
pub fn effective_timeout_secs(timeout_secs: u64) -> (r: u64)
    ensures
        r == (if timeout_secs >= 1 { timeout_secs } else { 1 }),
{
    if timeout_secs >= 1 {
        timeout_secs
    } else {
        1
    }
}

/// Standard output, then standard error under a `[stderr]` line.
pub open spec fn combined_output(stdout: Seq<char>, stderr: Seq<char>) -> Seq<char> {
    if stderr.len() == 0 {
        stdout
    } else {
        (if stdout.len() > 0 {
            stdout + "
"@
        } else {
            stdout
        }) + "[stderr]
"@ + stderr
    }
}

/// Cutting the output at `MAX_OUTPUT_BYTES` falls between characters when it
/// is cut at all (`String::truncate` panics otherwise).
pub open spec fn output_cuttable(stdout: Seq<char>, stderr: Seq<char>) -> bool {
    let c = combined_output(stdout, stderr);
    utf8_len(c) > MAX_OUTPUT_BYTES ==> crate::text::byte_boundary(c, MAX_OUTPUT_BYTES as int)
}

/// The tool output of a finished command: the combined output cut to
/// `MAX_OUTPUT_BYTES` with a note, a note when it was killed, the exit code when
/// not 0, or only the exit code when there is nothing else; an error when it was
/// killed or did not exit with 0.
pub open spec fn command_output_text(stdout: Seq<char>, stderr: Seq<char>, exit_code: i32, was_killed: bool) -> Seq<char> {
    let c = combined_output(stdout, stderr);
    let c1 = if utf8_len(c) > MAX_OUTPUT_BYTES {
        c.take(crate::text::char_index_of_byte(c, MAX_OUTPUT_BYTES as int))
            + "
...(output truncated)"@
    } else {
        c
    };
    let c2 = if was_killed {
        (if c1.len() > 0 {
            c1 + "
"@
        } else {
            c1
        }) + "[killed: timeout exceeded]"@
    } else {
        c1
    };
    let c3 = if exit_code != 0 {
        c2 + "
[exit code: "@ + crate::text::signed_decimal(exit_code as int) + "]"@
    } else {
        c2
    };
    if c3.len() == 0 {
        "[exit code: "@ + crate::text::signed_decimal(exit_code as int) + "]"@
    } else {
        c3
    }
}

/// Whether the output of a command may be cut where the tool cuts it.
pub fn output_cut_ok(stdout: &str, stderr: &str) -> (r: bool)
    ensures
        r == output_cuttable(stdout@, stderr@),
{
    let c = combine(stdout, stderr);
    if byte_len(c.as_str()) > MAX_OUTPUT_BYTES {
        let cs = chars_of(c.as_str());
        crate::text::char_index_at_byte(cs.as_slice(), MAX_OUTPUT_BYTES).is_some()
    } else {
        true
    }
}

fn combine(stdout: &str, stderr: &str) -> (r: String)
    ensures
        r@ == combined_output(stdout@, stderr@),
{
    let mut combined = String::new();
    if !stdout.is_empty() {
        push_str(&mut combined, stdout);
    }
    if !stderr.is_empty() {
        if !combined.as_str().is_empty() {
            push_str(&mut combined, "\n");
        }
        push_str(&mut combined, "[stderr]\n");
        push_str(&mut combined, stderr);
    }
    combined
}

/// The tool output of a finished command.
pub fn format_command_output(stdout: &str, stderr: &str, exit_code: i32, was_killed: bool) -> (r: crate::tool::ToolOutput)
    requires
        output_cuttable(stdout@, stderr@),
    ensures
        r.content@ == command_output_text(stdout@, stderr@, exit_code, was_killed),
        r.is_error == (exit_code != 0 || was_killed),
{
    let mut combined = combine(stdout, stderr);
    if byte_len(combined.as_str()) > MAX_OUTPUT_BYTES {
        let cs = chars_of(combined.as_str());
        let end = match crate::text::char_index_at_byte(cs.as_slice(), MAX_OUTPUT_BYTES) {
            Some(e) => e,
            None => {
                proof {
                    assert(false);
                }
                0
            },
        };
        let head = slice_chars(cs.as_slice(), 0, end);
        assert(head@ =~= combined@.take(end as int));
        combined = string_from_chars(head.as_slice());
        push_str(&mut combined, "\n...(output truncated)");
    }
    let mut is_error = exit_code != 0;
    if was_killed {
        is_error = true;
        if !combined.as_str().is_empty() {
            push_str(&mut combined, "\n");
        }
        push_str(&mut combined, "[killed: timeout exceeded]");
    }
    if exit_code != 0 {
        push_str(&mut combined, "\n[exit code: ");
        let e = crate::text::i32_to_string(exit_code);
        push_str(&mut combined, e.as_str());
        push_str(&mut combined, "]");
    }
    let content = if combined.as_str().is_empty() {
        let mut c = owned("[exit code: ");
        let e = crate::text::i32_to_string(exit_code);
        push_str(&mut c, e.as_str());
        push_str(&mut c, "]");
        c
    } else {
        combined
    };
    crate::tool::ToolOutput { content, is_error }
}

} // verus!
