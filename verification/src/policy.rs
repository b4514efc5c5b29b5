//! Tool permission policy: a hard baseline that no configuration can lift,
//! and origin-based permissions (builtin tools are trusted, external skills
//! must declare what they need).
use vstd::prelude::*;

use crate::config::SecurityMode;
use crate::paths::{basename_or_self, file_name};
use crate::text::{all_ascii, ascii_lower, chars_of, concat3, contains_seq, decimal, first_word, has_prefix, has_suffix, parse_digits, parse_unsigned, str_contains, str_ends_with, str_eq, str_starts_with, string_from_chars, to_lowercase, trim, trim_str, lower_text, usize_to_string, views, words, copy_strings};

verus! {

/// Where a tool comes from; decides how far it is trusted.
#[derive(Debug, Clone, Copy, PartialEq, Eq, Structural)]
pub enum ToolOrigin {
    /// Compiled into the binary: trusted, no permission declaration needed.
    Builtin,
    /// Loaded at runtime from SKILL.md: needs declared permissions.
    External,
}

impl ToolOrigin {
    /// Lowercase name of the origin.
    pub fn name(&self) -> (r: &'static str)
        ensures
            r@ == (match self {
                ToolOrigin::Builtin => "builtin"@,
                ToolOrigin::External => "external"@,
            }),
    {
        match self {
            ToolOrigin::Builtin => "builtin",
            ToolOrigin::External => "external",
        }
    }
}

// ───────────────────────────── Hard baseline ─────────────────────────────

pub open spec fn cloud_metadata_lower(h: Seq<char>) -> bool {
    h == "169.254.169.254"@ || h == "metadata.google.internal"@ || h == "metadata.goog"@
}

/// Second `.`-separated field of `h`, which starts with `172.`.
pub open spec fn second_field(h: Seq<char>) -> Seq<char> {
    let rest = h.skip(4);
    if crate::text::has_char(rest, '.') {
        rest.take(choose|i: int| crate::router::first_index(rest, '.', i))
    } else {
        rest
    }
}

pub open spec fn private_172(h: Seq<char>) -> bool {
    has_prefix(h, "172."@) && match parse_unsigned(second_field(h), 255) {
        Some(n) => 16 <= n <= 31,
        None => false,
    }
}

/// Network targets that are always refused, on a lowercased host.
pub open spec fn network_denied_lower(h: Seq<char>) -> bool {
    ||| has_prefix(h, "127."@)
    ||| has_prefix(h, "10."@)
    ||| has_prefix(h, "192.168."@)
    ||| has_prefix(h, "169.254."@)
    ||| has_prefix(h, "0.0.0.0"@)
    ||| has_prefix(h, "0."@)
    ||| private_172(h)
    ||| h == "localhost"@
    ||| has_suffix(h, ".internal"@)
    ||| has_suffix(h, ".local"@)
    ||| has_suffix(h, ".localhost"@)
    ||| h == "::1"@
    ||| has_prefix(h, "fe80:"@)
    ||| cloud_metadata_lower(h)
}

pub open spec fn write_denied_spec(p: Seq<char>) -> bool {
    ||| has_prefix(p, "/etc/"@)
    ||| has_prefix(p, "/System/"@)
    ||| has_prefix(p, "/usr/"@)
    ||| has_prefix(p, "/bin/"@)
    ||| has_prefix(p, "/sbin/"@)
    ||| has_prefix(p, "/Library/"@)
    ||| has_prefix(p, "/var/log"@)
    ||| has_prefix(p, "/var/run"@)
    ||| has_prefix(p, "/var/db"@)
    ||| has_prefix(p, "/var/cache"@)
    ||| contains_seq(p, "/.ssh/"@)
    ||| contains_seq(p, "/.gnupg/"@)
    ||| contains_seq(p, "/.aws/"@)
    ||| contains_seq(p, "/.azure/"@)
    ||| contains_seq(p, "/.config/gcloud/"@)
    ||| contains_seq(p, "/.kube/"@)
    ||| contains_seq(p, "/.docker/"@)
    ||| contains_seq(p, "/.clawhive/config/"@)
    ||| contains_seq(p, "/clawhive/config/"@)
}

pub open spec fn read_denied_spec(p: Seq<char>) -> bool {
    ||| contains_seq(p, "/.ssh/id_"@)
    ||| contains_seq(p, "/.gnupg/private-keys"@)
    ||| contains_seq(p, "/.gnupg/secring"@)
    ||| contains_seq(p, "/.aws/credentials"@)
    ||| contains_seq(p, "/.config/gcloud/credentials"@)
    ||| contains_seq(p, "/.azure/credentials"@)
}

/// Catastrophic command patterns, on a lowercased command.
pub open spec fn exec_denied_lower(c: Seq<char>) -> bool {
    ||| contains_seq(c, "rm -rf /"@)
    ||| contains_seq(c, "rm -rf ~"@)
    ||| contains_seq(c, "rm -rf $home"@)
    ||| contains_seq(c, "rm -rf /*"@)
    ||| contains_seq(c, ":(){ :|:& };:"@)
    ||| contains_seq(c, "./$0|./$0&"@)
    ||| contains_seq(c, "> /dev/sd"@)
    ||| contains_seq(c, "> /dev/nvme"@)
    ||| contains_seq(c, "mkfs."@)
    ||| contains_seq(c, "dd if=/dev/zero"@)
    ||| contains_seq(c, "dd if=/dev/random"@)
    ||| contains_seq(c, "| sh"@)
    ||| contains_seq(c, "| bash"@)
    ||| contains_seq(c, "| zsh"@)
    ||| contains_seq(c, "|sh"@)
    ||| contains_seq(c, "|bash"@)
    ||| contains_seq(c, "|zsh"@)
}

/// Non-negotiable security constraints, applied to every tool.
pub struct HardBaseline;

/// Default timeout for tool execution, in seconds.
pub const TIMEOUT_SECS: u64 = 30;

/// Maximum tool output size, in bytes.
pub const MAX_OUTPUT_BYTES: usize = 1_000_000;

/// Maximum concurrent tool executions.
pub const MAX_CONCURRENT: usize = 5;

fn second_field_exec(h: &[char]) -> (r: Vec<char>)
    requires
        h@.len() >= 4,
    ensures
        r@ == second_field(h@),
{
    let rest = crate::text::slice_chars(h, 4, h.len());
    let n = rest.len();
    for i in 0..n
        invariant
            n == rest@.len(),
            rest@ == h@.skip(4),
            forall|j: int| 0 <= j < i ==> rest@[j] != '.',
    {
        if rest[i] == '.' {
            proof {
                assert(crate::router::first_index(rest@, '.', i as int));
                let k = choose|k: int| crate::router::first_index(rest@, '.', k);
                assert(k == i) by {
                    if k > i {
                        assert(rest@[i as int] == '.');
                    }
                }
            }
            return crate::text::slice_chars(rest.as_slice(), 0, i);
        }
    }
    rest
}

fn parse_u8_field(s: &[char]) -> (r: Option<u64>)
    ensures
        match r {
            Some(v) => parse_unsigned(s@, 255) == Some(v as nat),
            None => parse_unsigned(s@, 255) is None,
        },
{
    if s.len() > 0 && s[0] == '+' {
        let body = crate::text::slice_chars(s, 1, s.len());
        assert(body@ =~= s@.drop_first());
        parse_digits(body.as_slice(), 255)
    } else {
        parse_digits(s, 255)
    }
}

impl HardBaseline {
    /// Cloud metadata endpoints (never reachable, whatever the overrides).
    pub fn is_cloud_metadata(host: &str, _port: u16) -> (r: bool)
        ensures
            r == cloud_metadata_lower(lower_text(host@)),
            all_ascii(host@) ==> r == cloud_metadata_lower(ascii_lower(host@)),
    {
        let h = to_lowercase(host);
        str_eq(h.as_str(), "169.254.169.254") || str_eq(h.as_str(), "metadata.google.internal")
            || str_eq(h.as_str(), "metadata.goog")
    }

    /// SSRF protection: private, loopback and link-local networks, internal
    /// names and cloud metadata endpoints are refused.
    pub fn network_denied(host: &str, port: u16) -> (r: bool)
        ensures
            r == network_denied_lower(lower_text(host@)),
            all_ascii(host@) ==> r == network_denied_lower(ascii_lower(host@)),
    {
        let h = to_lowercase(host);
        let hs = h.as_str();
        let hv = chars_of(hs);
        let is_172 = if str_starts_with(hs, "172.") {
            proof {
                reveal_strlit("172.");
            }
            let field = second_field_exec(hv.as_slice());
            match parse_u8_field(field.as_slice()) {
                Some(n) => 16 <= n && n <= 31,
                None => false,
            }
        } else {
            false
        };
        str_starts_with(hs, "127.") || str_starts_with(hs, "10.") || str_starts_with(hs, "192.168.")
            || str_starts_with(hs, "169.254.") || str_starts_with(hs, "0.0.0.0") || str_starts_with(
            hs,
            "0.",
        ) || is_172 || str_eq(hs, "localhost") || str_ends_with(hs, ".internal")
            || str_ends_with(hs, ".local") || str_ends_with(hs, ".localhost") || str_eq(hs, "::1")
            || str_starts_with(hs, "fe80:") || Self::is_cloud_metadata(host, port)
    }

    /// Paths that may never be written: system directories, credential stores,
    /// and clawhive's own configuration.
    pub fn path_write_denied(path: &str) -> (r: bool)
        ensures
            r == write_denied_spec(path@),
    {
        str_starts_with(path, "/etc/") || str_starts_with(path, "/System/") || str_starts_with(
            path,
            "/usr/",
        ) || str_starts_with(path, "/bin/") || str_starts_with(path, "/sbin/") || str_starts_with(
            path,
            "/Library/",
        ) || str_starts_with(path, "/var/log") || str_starts_with(path, "/var/run")
            || str_starts_with(path, "/var/db") || str_starts_with(path, "/var/cache")
            || str_contains(path, "/.ssh/") || str_contains(path, "/.gnupg/") || str_contains(
            path,
            "/.aws/",
        ) || str_contains(path, "/.azure/") || str_contains(path, "/.config/gcloud/")
            || str_contains(path, "/.kube/") || str_contains(path, "/.docker/") || str_contains(
            path,
            "/.clawhive/config/",
        ) || str_contains(path, "/clawhive/config/")
    }

    /// Files that may never be read: private keys and cloud credentials.
    pub fn path_read_denied(path: &str) -> (r: bool)
        ensures
            r == read_denied_spec(path@),
    {
        str_contains(path, "/.ssh/id_") || str_contains(path, "/.gnupg/private-keys")
            || str_contains(path, "/.gnupg/secring") || str_contains(path, "/.aws/credentials")
            || str_contains(path, "/.config/gcloud/credentials") || str_contains(
            path,
            "/.azure/credentials",
        )
    }

    /// Best-effort blocklist of catastrophic commands.
    pub fn exec_denied(command: &str) -> (r: bool)
        ensures
            r == exec_denied_lower(lower_text(command@)),
            all_ascii(command@) ==> r == exec_denied_lower(ascii_lower(command@)),
    {
        let c = to_lowercase(command);
        let cs = c.as_str();
        str_contains(cs, "rm -rf /") || str_contains(cs, "rm -rf ~") || str_contains(
            cs,
            "rm -rf $home",
        ) || str_contains(cs, "rm -rf /*") || str_contains(cs, ":(){ :|:& };:") || str_contains(
            cs,
            "./$0|./$0&",
        ) || str_contains(cs, "> /dev/sd") || str_contains(cs, "> /dev/nvme") || str_contains(
            cs,
            "mkfs.",
        ) || str_contains(cs, "dd if=/dev/zero") || str_contains(cs, "dd if=/dev/random")
            || str_contains(cs, "| sh") || str_contains(cs, "| bash") || str_contains(cs, "| zsh")
            || str_contains(cs, "|sh") || str_contains(cs, "|bash") || str_contains(cs, "|zsh")
    }
}

// ───────────────────────────── Declared permissions ─────────────────────────────

/// File-system patterns a skill declares.
#[derive(Debug, Clone)]
pub struct FsPermissions {
    pub read: Vec<String>,
    pub write: Vec<String>,
}

/// Network patterns (`host:port`) a skill declares.
#[derive(Debug, Clone)]
pub struct NetworkPermissions {
    pub allow: Vec<String>,
}

/// Permissions declared in a skill's SKILL.md frontmatter.
#[derive(Debug, Clone)]
pub struct Permissions {
    pub fs: FsPermissions,
    pub network: NetworkPermissions,
    pub exec_commands: Vec<String>,
    pub env: Vec<String>,
    /// Names of the broker services the skill requests.
    pub services: Vec<String>,
}

/// A copy of a permission set.
pub fn copy_permissions(p: &Permissions) -> (r: Permissions)
    ensures
        views(r.fs.read@) == views(p.fs.read@),
        views(r.fs.write@) == views(p.fs.write@),
        views(r.network.allow@) == views(p.network.allow@),
        views(r.exec_commands@) == views(p.exec_commands@),
        views(r.env@) == views(p.env@),
        views(r.services@) == views(p.services@),
{
    Permissions {
        fs: FsPermissions { read: copy_strings(&p.fs.read), write: copy_strings(&p.fs.write) },
        network: NetworkPermissions { allow: copy_strings(&p.network.allow) },
        exec_commands: copy_strings(&p.exec_commands),
        env: copy_strings(&p.env),
        services: copy_strings(&p.services),
    }
}


// ───────────────────────────── Glob matching ─────────────────────────────

pub open spec fn strip_suffix(s: Seq<char>, p: Seq<char>) -> Seq<char> {
    s.take(s.len() - p.len())
}

/// Permission pattern matching: `*`/`**` match all, `prefix/**` matches the
/// prefix and everything under it, `prefix*` matches by prefix, `*:port` any
/// host on a port, `*.domain:port` any subdomain (or the domain itself).
pub open spec fn glob_spec(pattern: Seq<char>, text: Seq<char>) -> bool {
    if pattern == "*"@ || pattern == "**"@ {
        true
    } else if has_suffix(pattern, "/**"@) {
        has_prefix(text, strip_suffix(pattern, "/**"@)) || text == strip_suffix(pattern, "/**"@)
    } else if has_suffix(pattern, "*"@) {
        has_prefix(text, strip_suffix(pattern, "*"@))
    } else if has_prefix(pattern, "*:"@) {
        has_suffix(text, ":"@ + pattern.skip(2))
    } else if has_prefix(pattern, "*."@) {
        has_suffix(text, "."@ + pattern.skip(2)) || text == pattern.skip(2)
    } else {
        pattern == text
    }
}

/// Simple glob matching for permission patterns.
pub fn glob_match(pattern: &str, text: &str) -> (r: bool)
    ensures
        r == glob_spec(pattern@, text@),
{
    let pv = chars_of(pattern);
    let tv = chars_of(text);
    if str_eq(pattern, "*") || str_eq(pattern, "**") {
        return true;
    }
    if str_ends_with(pattern, "/**") {
        proof {
            reveal_strlit("/**");
        }
        let prefix = crate::text::slice_chars(pv.as_slice(), 0, pv.len() - 3);
        return crate::text::starts_with_chars(tv.as_slice(), prefix.as_slice())
            || crate::text::chars_eq(tv.as_slice(), prefix.as_slice());
    }
    if str_ends_with(pattern, "*") {
        proof {
            reveal_strlit("*");
        }
        let prefix = crate::text::slice_chars(pv.as_slice(), 0, pv.len() - 1);
        return crate::text::starts_with_chars(tv.as_slice(), prefix.as_slice());
    }
    if str_starts_with(pattern, "*:") {
        proof {
            reveal_strlit("*:");
        }
        let port = crate::text::slice_chars(pv.as_slice(), 2, pv.len());
        let mut suffix: Vec<char> = Vec::new();
        suffix.push(':');
        let ghost colon = suffix@;
        let mut rest = port;
        suffix.append(&mut rest);
        proof {
            reveal_strlit(":");
        }
        assert(suffix@ =~= ":"@ + pattern@.skip(2));
        return crate::text::ends_with_chars(tv.as_slice(), suffix.as_slice());
    }
    if str_starts_with(pattern, "*.") {
        proof {
            reveal_strlit("*.");
        }
        let rest = crate::text::slice_chars(pv.as_slice(), 2, pv.len());
        let mut with_dot: Vec<char> = Vec::new();
        with_dot.push('.');
        let mut r2 = crate::text::slice_chars(pv.as_slice(), 2, pv.len());
        with_dot.append(&mut r2);
        proof {
            reveal_strlit(".");
        }
        assert(with_dot@ =~= "."@ + pattern@.skip(2));
        assert(rest@ =~= pattern@.skip(2));
        return crate::text::ends_with_chars(tv.as_slice(), with_dot.as_slice())
            || crate::text::chars_eq(tv.as_slice(), rest.as_slice());
    }
    str_eq(pattern, text)
}

/// Some pattern of the list matches the text.
pub open spec fn any_glob(patterns: Seq<String>, text: Seq<char>) -> bool {
    exists|i: int| 0 <= i < patterns.len() && glob_spec(#[trigger] patterns[i]@, text)
}

fn any_glob_exec(patterns: &Vec<String>, text: &str) -> (r: bool)
    ensures
        r == any_glob(patterns@, text@),
{
    for i in 0..patterns.len()
        invariant
            forall|j: int| 0 <= j < i ==> !glob_spec(#[trigger] patterns@[j]@, text@),
    {
        if glob_match(patterns[i].as_str(), text) {
            return true;
        }
    }
    false
}

// ───────────────────────────── Policy context ─────────────────────────────

/// Normalised private-network override: trimmed, lowercased, non-empty.
pub open spec fn normalized_override(v: Seq<char>) -> Seq<char> {
    lower_text(trim(v))
}

/// Trust level, declared permissions and security mode of a tool call.
#[derive(Debug, Clone)]
pub struct PolicyContext {
    pub origin: ToolOrigin,
    pub permissions: Option<Permissions>,
    pub security_mode: SecurityMode,
    /// `host:port` targets exempt from the private-network baseline.
    pub private_overrides: Vec<String>,
}

/// `host:port` as the overrides and permissions spell it.
pub open spec fn target_text(host: Seq<char>, port: u16) -> Seq<char> {
    host + ":"@ + decimal(port as nat)
}

/// The command's name: its first word, and the file name of that word.
pub open spec fn cmd_name(command: Seq<char>) -> Seq<char> {
    if words(command).len() > 0 {
        words(command)[0]
    } else {
        seq![]
    }
}

pub open spec fn cmd_basename(command: Seq<char>) -> Seq<char> {
    match file_name(cmd_name(command)) {
        Some(n) => n,
        None => cmd_name(command),
    }
}

/// An exec entry allows the command: `*`, its name, its file name, or a
/// `prefix*` pattern matching its name.
pub open spec fn exec_entry_allows(allowed: Seq<char>, command: Seq<char>) -> bool {
    ||| allowed == "*"@
    ||| allowed == cmd_name(command)
    ||| allowed == cmd_basename(command)
    ||| (has_suffix(allowed, "*"@) && has_prefix(cmd_name(command), strip_suffix(allowed, "*"@)))
}

pub open spec fn exec_permitted(exec: Seq<String>, command: Seq<char>) -> bool {
    exists|i: int| 0 <= i < exec.len() && exec_entry_allows(#[trigger] exec[i]@, command)
}

pub open spec fn env_permitted(env: Seq<String>, name: Seq<char>) -> bool {
    exists|i: int| 0 <= i < env.len() && (#[trigger] env[i]@ == name || env[i]@ == "*"@)
}

impl PolicyContext {
    pub open spec fn overrides_allow(&self, target: Seq<char>) -> bool {
        views(self.private_overrides@).contains(target)
    }

    /// Whether `host:port` may be reached.
    pub open spec fn network_allowed(&self, host: Seq<char>, port: u16) -> bool {
        if self.security_mode == SecurityMode::Off {
            true
        } else if network_denied_lower(lower_text(host)) && (cloud_metadata_lower(
            lower_text(host),
        ) || !self.overrides_allow(target_text(lower_text(host), port))) {
            false
        } else {
            match self.origin {
                ToolOrigin::Builtin => true,
                ToolOrigin::External => match self.permissions {
                    Some(p) => any_glob(p.network.allow@, target_text(host, port)),
                    None => false,
                },
            }
        }
    }

    pub open spec fn read_allowed(&self, path: Seq<char>) -> bool {
        if self.security_mode == SecurityMode::Off {
            true
        } else if read_denied_spec(path) {
            false
        } else {
            match self.origin {
                ToolOrigin::Builtin => true,
                ToolOrigin::External => match self.permissions {
                    Some(p) => any_glob(p.fs.read@, path),
                    None => false,
                },
            }
        }
    }

    pub open spec fn write_allowed(&self, path: Seq<char>) -> bool {
        if self.security_mode == SecurityMode::Off {
            true
        } else if write_denied_spec(path) {
            false
        } else {
            match self.origin {
                ToolOrigin::Builtin => true,
                ToolOrigin::External => match self.permissions {
                    Some(p) => any_glob(p.fs.write@, path),
                    None => false,
                },
            }
        }
    }

    pub open spec fn exec_allowed(&self, command: Seq<char>) -> bool {
        if self.security_mode == SecurityMode::Off {
            true
        } else if exec_denied_lower(lower_text(command)) {
            false
        } else {
            match self.origin {
                ToolOrigin::Builtin => true,
                ToolOrigin::External => match self.permissions {
                    Some(p) => exec_permitted(p.exec_commands@, command),
                    None => false,
                },
            }
        }
    }

    pub open spec fn env_allowed(&self, name: Seq<char>) -> bool {
        if self.security_mode == SecurityMode::Off {
            true
        } else {
            match self.origin {
                ToolOrigin::Builtin => true,
                ToolOrigin::External => match self.permissions {
                    Some(p) => env_permitted(p.env@, name),
                    None => false,
                },
            }
        }
    }

    /// Builtin tool context, standard security.
    pub fn builtin() -> (r: Self)
        ensures
            r.origin == ToolOrigin::Builtin,
            r.permissions is None,
            r.security_mode == SecurityMode::Standard,
            r.private_overrides@.len() == 0,
    {
        PolicyContext {
            origin: ToolOrigin::Builtin,
            permissions: None,
            security_mode: SecurityMode::Standard,
            private_overrides: Vec::new(),
        }
    }

    /// Builtin tool context with the given security mode.
    pub fn builtin_with_security(mode: SecurityMode) -> (r: Self)
        ensures
            r.origin == ToolOrigin::Builtin,
            r.permissions is None,
            r.security_mode == mode,
            r.private_overrides@.len() == 0,
    {
        PolicyContext {
            origin: ToolOrigin::Builtin,
            permissions: None,
            security_mode: mode,
            private_overrides: Vec::new(),
        }
    }

    /// Builtin tool context with private-network overrides.
    pub fn builtin_with_private_overrides(mode: SecurityMode, overrides: Vec<String>) -> (r: Self)
        ensures
            r.origin == ToolOrigin::Builtin,
            r.permissions is None,
            r.security_mode == mode,
            views(r.private_overrides@) == normalized_overrides(views(overrides@)),
    {
        PolicyContext {
            origin: ToolOrigin::Builtin,
            permissions: None,
            security_mode: mode,
            private_overrides: Self::normalize_private_overrides(&overrides),
        }
    }

    /// External skill context with declared permissions, standard security.
    pub fn external(permissions: Permissions) -> (r: Self)
        ensures
            r.origin == ToolOrigin::External,
            r.permissions == Some(permissions),
            r.security_mode == SecurityMode::Standard,
            r.private_overrides@.len() == 0,
    {
        PolicyContext {
            origin: ToolOrigin::External,
            permissions: Some(permissions),
            security_mode: SecurityMode::Standard,
            private_overrides: Vec::new(),
        }
    }

    /// External skill context with the given security mode.
    pub fn external_with_security(permissions: Permissions, mode: SecurityMode) -> (r: Self)
        ensures
            r.origin == ToolOrigin::External,
            r.permissions == Some(permissions),
            r.security_mode == mode,
            r.private_overrides@.len() == 0,
    {
        PolicyContext {
            origin: ToolOrigin::External,
            permissions: Some(permissions),
            security_mode: mode,
            private_overrides: Vec::new(),
        }
    }

    /// External skill context with security mode and private-network overrides.
    pub fn external_with_security_and_private_overrides(
        permissions: Permissions,
        mode: SecurityMode,
        overrides: Vec<String>,
    ) -> (r: Self)
        ensures
            r.origin == ToolOrigin::External,
            r.permissions == Some(permissions),
            r.security_mode == mode,
            views(r.private_overrides@) == normalized_overrides(views(overrides@)),
    {
        PolicyContext {
            origin: ToolOrigin::External,
            permissions: Some(permissions),
            security_mode: mode,
            private_overrides: Self::normalize_private_overrides(&overrides),
        }
    }

    /// The security mode.
    pub fn security_mode(&self) -> (r: SecurityMode)
        ensures
            r == self.security_mode,
    {
        self.security_mode
    }

    /// Whether network access to `host:port` is allowed.
    pub fn check_network(&self, host: &str, port: u16) -> (r: bool)
        ensures
            r == self.network_allowed(host@, port),
    {
        if self.security_mode == SecurityMode::Off {
            return true;
        }
        if HardBaseline::network_denied(host, port) {
            let lower = to_lowercase(host);
            let port_text = usize_to_string(port as usize);
            let target = concat3(lower.as_str(), ":", port_text.as_str());
            let allow_private = crate::text::contains_string(&self.private_overrides, target.as_str());
            if HardBaseline::is_cloud_metadata(host, port) || !allow_private {
                return false;
            }
        }
        match self.origin {
            ToolOrigin::Builtin => true,
            ToolOrigin::External => match &self.permissions {
                Some(p) => {
                    let port_text = usize_to_string(port as usize);
                    let target = concat3(host, ":", port_text.as_str());
                    any_glob_exec(&p.network.allow, target.as_str())
                },
                None => false,
            },
        }
    }

    /// Whether reading `path` is allowed.
    pub fn check_read(&self, path: &str) -> (r: bool)
        ensures
            r == self.read_allowed(path@),
    {
        if self.security_mode == SecurityMode::Off {
            return true;
        }
        if HardBaseline::path_read_denied(path) {
            return false;
        }
        match self.origin {
            ToolOrigin::Builtin => true,
            ToolOrigin::External => match &self.permissions {
                Some(p) => any_glob_exec(&p.fs.read, path),
                None => false,
            },
        }
    }

    /// Whether writing `path` is allowed.
    pub fn check_write(&self, path: &str) -> (r: bool)
        ensures
            r == self.write_allowed(path@),
    {
        if self.security_mode == SecurityMode::Off {
            return true;
        }
        if HardBaseline::path_write_denied(path) {
            return false;
        }
        match self.origin {
            ToolOrigin::Builtin => true,
            ToolOrigin::External => match &self.permissions {
                Some(p) => any_glob_exec(&p.fs.write, path),
                None => false,
            },
        }
    }

    /// Whether executing `command` is allowed.
    pub fn check_exec(&self, command: &str) -> (r: bool)
        ensures
            r == self.exec_allowed(command@),
    {
        if self.security_mode == SecurityMode::Off {
            return true;
        }
        if HardBaseline::exec_denied(command) {
            return false;
        }
        match self.origin {
            ToolOrigin::Builtin => true,
            ToolOrigin::External => match &self.permissions {
                Some(p) => Self::check_exec_permission(&p.exec_commands, command),
                None => false,
            },
        }
    }

    /// Whether reading the environment variable `name` is allowed.
    pub fn check_env(&self, name: &str) -> (r: bool)
        ensures
            r == self.env_allowed(name@),
    {
        if self.security_mode == SecurityMode::Off {
            return true;
        }
        match self.origin {
            ToolOrigin::Builtin => true,
            ToolOrigin::External => match &self.permissions {
                Some(p) => env_listed(&p.env, name),
                None => false,
            },
        }
    }

    /// The first word of a command and the file name of that word.
    pub fn command_name(command: &str) -> (r: (String, String))
        ensures
            r.0@ == cmd_name(command@),
            r.1@ == cmd_basename(command@),
    {
        let v = chars_of(command);
        let name = match first_word(v.as_slice()) {
            Some(w) => string_from_chars(w.as_slice()),
            None => String::new(),
        };
        let base = basename_or_self(name.as_str());
        (name, base)
    }

    fn check_exec_permission(exec: &Vec<String>, command: &str) -> (r: bool)
        ensures
            r == exec_permitted(exec@, command@),
    {
        let (name, base) = Self::command_name(command);
        let name_chars = chars_of(name.as_str());
        for i in 0..exec.len()
            invariant
                name@ == cmd_name(command@),
                base@ == cmd_basename(command@),
                name_chars@ == name@,
                forall|j: int| 0 <= j < i ==> !exec_entry_allows(#[trigger] exec@[j]@, command@),
        {
            let allowed = exec[i].as_str();
            let hit = if str_eq(allowed, "*") || str_eq(allowed, name.as_str()) || str_eq(allowed, base.as_str()) {
                true
            } else if str_ends_with(allowed, "*") {
                proof {
                    reveal_strlit("*");
                }
                let av = chars_of(allowed);
                let prefix = crate::text::slice_chars(av.as_slice(), 0, av.len() - 1);
                crate::text::starts_with_chars(name_chars.as_slice(), prefix.as_slice())
            } else {
                false
            };
            if hit {
                return true;
            }
        }
        false
    }

    /// Overrides trimmed and lowercased, empty ones dropped.
    pub fn normalize_private_overrides(overrides: &Vec<String>) -> (r: Vec<String>)
        ensures
            views(r@) == normalized_overrides(views(overrides@)),
    {
        let mut r: Vec<String> = Vec::new();
        let n = overrides.len();
        for i in 0..n
            invariant
                n == overrides@.len(),
                views(r@) == normalized_overrides(views(overrides@).take(i as int)),
        {
            let ghost prev = views(overrides@).take(i as int);
            assert(views(overrides@).take(i + 1).drop_last() =~= prev);
            assert(views(overrides@).take(i + 1).last() == overrides@[i as int]@);
            let t = trim_str(overrides[i].as_str());
            let l = to_lowercase(t.as_str());
            if !l.as_str().is_empty() {
                let ghost before = views(r@);
                r.push(l);
                assert(views(r@) =~= before.push(normalized_override(overrides@[i as int]@)));
            }
        }
        assert(views(overrides@).take(n as int) =~= views(overrides@));
        r
    }
}

fn env_listed(env: &Vec<String>, name: &str) -> (r: bool)
    ensures
        r == env_permitted(env@, name@),
{
    for i in 0..env.len()
        invariant
            forall|j: int| 0 <= j < i ==> !(#[trigger] env@[j]@ == name@ || env@[j]@ == "*"@),
    {
        if str_eq(env[i].as_str(), name) || str_eq(env[i].as_str(), "*") {
            assert(env@[i as int]@ == name@ || env@[i as int]@ == "*"@);
            return true;
        }
    }
    false
}

/// The overrides, normalised, without the ones that become empty.
pub open spec fn normalized_overrides(v: Seq<Seq<char>>) -> Seq<Seq<char>>
    decreases v.len(),
{
    if v.len() == 0 {
        seq![]
    } else {
        let prev = normalized_overrides(v.drop_last());
        let n = normalized_override(v.last());
        if n.len() == 0 {
            prev
        } else {
            prev.push(n)
        }
    }
}

// ───────────────────────────── Laws ─────────────────────────────

/// The hard baseline cannot be bypassed by a tool's origin or permissions: with
/// standard security, a path whose read or write it denies, a command it
/// denies and a cloud metadata endpoint are refused in every context.
pub proof fn law_baseline_not_bypassed(
    ctx: PolicyContext,
    path: Seq<char>,
    command: Seq<char>,
    host: Seq<char>,
    port: u16,
)
    requires
        ctx.security_mode == SecurityMode::Standard,
    ensures
        read_denied_spec(path) ==> !ctx.read_allowed(path),
        write_denied_spec(path) ==> !ctx.write_allowed(path),
        exec_denied_lower(lower_text(command)) ==> !ctx.exec_allowed(command),
        network_denied_lower(lower_text(host)) && cloud_metadata_lower(lower_text(host))
            ==> !ctx.network_allowed(host, port),
{
}

/// An external tool that declared no permissions may do nothing, while a
/// builtin tool is bound by the hard baseline alone (with standard security).
pub proof fn law_origin_rules(
    ctx: PolicyContext,
    path: Seq<char>,
    command: Seq<char>,
    host: Seq<char>,
    port: u16,
    name: Seq<char>,
)
    requires
        ctx.security_mode == SecurityMode::Standard,
    ensures
        ctx.origin == ToolOrigin::External && ctx.permissions is None ==> {
            &&& !ctx.read_allowed(path)
            &&& !ctx.write_allowed(path)
            &&& !ctx.exec_allowed(command)
            &&& !ctx.network_allowed(host, port)
            &&& !ctx.env_allowed(name)
        },
        ctx.origin == ToolOrigin::Builtin ==> {
            &&& ctx.read_allowed(path) == !read_denied_spec(path)
            &&& ctx.write_allowed(path) == !write_denied_spec(path)
            &&& ctx.exec_allowed(command) == !exec_denied_lower(lower_text(command))
            &&& ctx.env_allowed(name)
        },
{
}

} // verus!
