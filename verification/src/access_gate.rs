//! Directory-level access control for paths outside the workspace.
//!
//! 1. Paths denied by the hard baseline are always denied.
//! 2. Paths inside the workspace are always allowed.
//! 3. Paths under an allow-list entry with a sufficient level are allowed.
//! 4. Everything else needs a grant from the user.
//!
//! Canonicalising paths and reading or writing the policy file are done by the
//! caller; this module decides on the results.
use vstd::prelude::*;

use crate::paths::{is_absolute, normalized, normalize_path, path_segments, segments};
use crate::policy::{read_denied_spec, write_denied_spec, HardBaseline};
use crate::text::{char_views, chars_of, chars_eq, concat2, copy_string, has_prefix, owned, str_eq, str_starts_with, push_str, slice_chars, string_from_chars};
use crate::tool::ToolOutput;

verus! {

/// Read-only or read-write access.
#[derive(Debug, Clone, Copy, PartialEq, Eq, Structural)]
pub enum AccessLevel {
    Ro,
    Rw,
}

pub open spec fn level_satisfies(have: AccessLevel, need: AccessLevel) -> bool {
    have == AccessLevel::Rw || need == AccessLevel::Ro
}

impl AccessLevel {
    /// `self` satisfies `need`: read-write satisfies everything, read-only only reads.
    pub fn satisfies(self, need: AccessLevel) -> (r: bool)
        ensures
            r == level_satisfies(self, need),
    {
        match (self, need) {
            (AccessLevel::Rw, _) => true,
            (AccessLevel::Ro, AccessLevel::Ro) => true,
            (AccessLevel::Ro, AccessLevel::Rw) => false,
        }
    }

    /// Lowercase name of the level (`ro` / `rw`).
    pub fn name(self) -> (r: &'static str)
        ensures
            r@ == (if self == AccessLevel::Ro { "ro"@ } else { "rw"@ }),
    {
        match self {
            AccessLevel::Ro => "ro",
            AccessLevel::Rw => "rw",
        }
    }
}

/// One entry of the allow-list.
#[derive(Debug, Clone)]
pub struct AllowEntry {
    pub path: String,
    pub level: AccessLevel,
}

/// The persistent allow-list.
#[derive(Debug, Clone)]
pub struct AccessPolicy {
    pub allowed: Vec<AllowEntry>,
}

impl Default for AccessPolicy {
    fn default() -> (r: Self)
        ensures
            r.allowed@.len() == 0,
    {
        AccessPolicy { allowed: Vec::new() }
    }
}

/// Result of an access check.
#[derive(Debug, Clone, PartialEq, Eq)]
pub enum AccessResult {
    Allowed,
    Denied(String),
    NeedGrant { dir: String, need: AccessLevel },
}

/// Abstract value of an access result.
pub enum AccessOutcome {
    Allowed,
    Denied(Seq<char>),
    NeedGrant(Seq<char>, AccessLevel),
}

impl AccessResult {
    pub open spec fn view(&self) -> AccessOutcome {
        match self {
            AccessResult::Allowed => AccessOutcome::Allowed,
            AccessResult::Denied(m) => AccessOutcome::Denied(m@),
            AccessResult::NeedGrant { dir, need } => AccessOutcome::NeedGrant(dir@, *need),
        }
    }
}

// ───────────────────────────── Path prefixes ─────────────────────────────

/// Components of a path with the root as a first component.
pub open spec fn components(p: Seq<char>) -> Seq<Seq<char>> {
    if is_absolute(p) {
        seq![seq!['/']] + segments(p)
    } else {
        segments(p)
    }
}

pub open spec fn seq_is_prefix(a: Seq<Seq<char>>, b: Seq<Seq<char>>) -> bool {
    a.len() <= b.len() && b.take(a.len() as int) == a
}

/// `Path::starts_with`: `base`'s components are a prefix of `path`'s.
pub open spec fn path_starts_with(path: Seq<char>, base: Seq<char>) -> bool {
    seq_is_prefix(components(base), components(path))
}

fn components_of(p: &str) -> (r: Vec<Vec<char>>)
    ensures
        char_views(r@) == components(p@),
{
    let v = chars_of(p);
    let segs = path_segments(v.as_slice());
    if v.len() > 0 && v[0] == '/' {
        let mut r: Vec<Vec<char>> = Vec::new();
        let mut root: Vec<char> = Vec::new();
        root.push('/');
        r.push(root);
        let n = segs.len();
        for i in 0..n
            invariant
                n == segs@.len(),
                char_views(r@) == seq![seq!['/']] + char_views(segs@).take(i as int),
        {
            let ghost before = char_views(r@);
            let piece = crate::text::slice_chars(segs[i].as_slice(), 0, segs[i].len());
            assert(piece@ =~= segs@[i as int]@);
            r.push(piece);
            assert(char_views(r@) =~= before.push(segs@[i as int]@));
            assert(char_views(segs@).take(i + 1) =~= char_views(segs@).take(i as int).push(segs@[i as int]@));
        }
        assert(char_views(segs@).take(n as int) =~= char_views(segs@));
        r
    } else {
        segs
    }
}

/// `Path::starts_with` on path texts: whole components are compared.
pub fn path_starts_with_exec(path: &str, base: &str) -> (r: bool)
    ensures
        r == path_starts_with(path@, base@),
{
    let a = components_of(path);
    let b = components_of(base);
    if b.len() > a.len() {
        return false;
    }
    let n = b.len();
    for i in 0..n
        invariant
            n == b@.len(),
            n <= a@.len(),
            char_views(a@) == components(path@),
            char_views(b@) == components(base@),
            forall|j: int| 0 <= j < i ==> a@[j]@ == b@[j]@,
    {
        if !chars_eq(a[i].as_slice(), b[i].as_slice()) {
            assert(char_views(a@)[i as int] == a@[i as int]@);
            assert(char_views(b@)[i as int] == b@[i as int]@);
            assert(char_views(a@).take(n as int)[i as int] != char_views(b@)[i as int]);
            assert(char_views(a@).take(n as int) != char_views(b@));
            return false;
        }
    }
    assert(char_views(a@).take(n as int) =~= char_views(b@));
    true
}

// ───────────────────────────── Decision ─────────────────────────────

pub open spec fn read_denied_msg(path: Seq<char>) -> Seq<char> {
    "Read access denied: sensitive file (hard baseline): "@ + path
}

pub open spec fn write_denied_msg(path: Seq<char>) -> Seq<char> {
    "Write access denied: sensitive path (hard baseline): "@ + path
}

pub open spec fn both_denied_msg(path: Seq<char>) -> Seq<char> {
    "Access denied: sensitive file (hard baseline): "@ + path
}

/// The entry matches a path: the path text starts with the entry's path.
pub open spec fn entry_matches(e: AllowEntry, p: Seq<char>) -> bool {
    has_prefix(p, e.path@) || p == e.path@
}

/// Index `i` holds the first entry that matches `p`.
pub open spec fn first_match(entries: Seq<AllowEntry>, p: Seq<char>, i: int) -> bool {
    0 <= i < entries.len() && entry_matches(entries[i], p) && forall|j: int|
        0 <= j < i ==> !entry_matches(#[trigger] entries[j], p)
}

pub open spec fn no_match(entries: Seq<AllowEntry>, p: Seq<char>) -> bool {
    forall|j: int| 0 <= j < entries.len() ==> !entry_matches(#[trigger] entries[j], p)
}

/// What the allow-list answers for the path text `p`.
pub open spec fn lookup_outcome(entries: Seq<AllowEntry>, p: Seq<char>, need: AccessLevel, suggest: Seq<char>) -> AccessOutcome {
    if no_match(entries, p) {
        AccessOutcome::NeedGrant(suggest, need)
    } else {
        let i = choose|i: int| first_match(entries, p, i);
        if level_satisfies(entries[i].level, need) {
            AccessOutcome::Allowed
        } else {
            AccessOutcome::NeedGrant(entries[i].path@, need)
        }
    }
}

/// Facts about the file system that a check needs, gathered by the caller.
pub struct PathFacts {
    /// The workspace, canonicalised (`None` when it cannot be).
    pub workspace_canonical: Option<String>,
    /// The checked path, canonicalised (`None` when it does not exist).
    pub path_canonical: Option<String>,
    /// The nearest existing directory at or above the path.
    pub nearest_dir: String,
}

/// The workspace part of a check: the path is inside the workspace.
pub open spec fn in_workspace(workspace: Seq<char>, path: Seq<char>, facts: PathFacts) -> bool {
    ||| (match facts.workspace_canonical {
        Some(w) => (match facts.path_canonical {
            Some(pc) => path_starts_with(pc@, w@),
            None => false,
        }) || path_starts_with(normalized(path), w@),
        None => false,
    })
    ||| path_starts_with(path, workspace)
}

/// The full decision of an access check.
pub open spec fn check_spec(
    workspace: Seq<char>,
    entries: Seq<AllowEntry>,
    path: Seq<char>,
    need: AccessLevel,
    facts: PathFacts,
) -> AccessOutcome {
    if need == AccessLevel::Ro && read_denied_spec(path) {
        AccessOutcome::Denied(read_denied_msg(path))
    } else if need == AccessLevel::Rw && write_denied_spec(path) {
        AccessOutcome::Denied(write_denied_msg(path))
    } else if need == AccessLevel::Rw && read_denied_spec(path) {
        AccessOutcome::Denied(both_denied_msg(path))
    } else if in_workspace(workspace, path, facts) {
        AccessOutcome::Allowed
    } else {
        let p = match facts.path_canonical {
            Some(pc) => pc@,
            None => path,
        };
        lookup_outcome(entries, p, need, facts.nearest_dir@)
    }
}

/// No path occurs twice in the allow-list.
pub open spec fn unique_paths(entries: Seq<AllowEntry>) -> bool {
    forall|i: int, j: int| 0 <= i < j < entries.len() ==> entries[i].path@ != entries[j].path@
}

/// The allow-list holds `p` with `level`, at its first entry for `p`.
pub open spec fn holds(entries: Seq<AllowEntry>, p: Seq<char>, level: AccessLevel) -> bool {
    exists|i: int| 0 <= i < entries.len() && entries[i].path@ == p && entries[i].level == level
}

/// The allow-list has an entry for `p`.
pub open spec fn listed(entries: Seq<AllowEntry>, p: Seq<char>) -> bool {
    exists|i: int| 0 <= i < entries.len() && #[trigger] entries[i].path@ == p
}

/// `new` is `old` after granting `c` at `level`: the entry for `c` has the
/// level (updated in place, or appended), every other entry is unchanged.
pub open spec fn granted(before: Seq<AllowEntry>, after: Seq<AllowEntry>, c: Seq<char>, level: AccessLevel) -> bool {
    &&& holds(after, c, level)
    &&& (after.len() == before.len() || (after.len() == before.len() + 1 && after.last().path@ == c))
    &&& forall|j: int| 0 <= j < before.len() && before[j].path@ != c ==> #[trigger] after[j] == before[j]
    &&& forall|j: int| 0 <= j < before.len() && before[j].path@ == c ==> #[trigger] after[j].path@ == c
    &&& forall|j: int| 0 <= j < after.len() && after[j].path@ == c ==> #[trigger] after[j].level == level
}

/// Entries other than the one for `p`.
pub open spec fn keeps(p: Seq<char>) -> spec_fn(AllowEntry) -> bool {
    |e: AllowEntry| e.path@ != p
}

/// Access gate of one agent: its workspace and its allow-list.
pub struct AccessGate {
    pub workspace: String,
    pub policy: AccessPolicy,
    pub policy_path: String,
}

/// The path and level of each entry.
pub open spec fn entry_views(s: Seq<AllowEntry>) -> Seq<(Seq<char>, AccessLevel)> {
    s.map_values(|e: AllowEntry| (e.path@, e.level))
}

/// The entries with only the first entry of each path kept: the one that a
/// check, a grant and a revoke of that path act on.
pub open spec fn first_of_each(s: Seq<(Seq<char>, AccessLevel)>) -> Seq<(Seq<char>, AccessLevel)>
    decreases s.len(),
{
    if s.len() == 0 {
        Seq::empty()
    } else {
        let d = first_of_each(s.drop_last());
        if exists|i: int| 0 <= i < d.len() && d[i].0 == s.last().0 {
            d
        } else {
            d.push(s.last())
        }
    }
}

impl AccessGate {
    /// A gate over the given workspace with the given (loaded) policy. A
    /// policy that names a path twice keeps its first entry for that path.
    pub fn new(workspace: String, policy: AccessPolicy, policy_path: String) -> (r: Self)
        ensures
            r.workspace == workspace,
            r.policy_path == policy_path,
            unique_paths(r.policy.allowed@),
            entry_views(r.policy.allowed@) == first_of_each(entry_views(policy.allowed@)),
    {
        let src = policy.allowed;
        let ghost sv = entry_views(src@);
        let mut out: Vec<AllowEntry> = Vec::new();
        let n = src.len();
        assert(sv.take(0) =~= Seq::<(Seq<char>, AccessLevel)>::empty());
        for i in 0..n
            invariant
                n == src@.len(),
                sv == entry_views(src@),
                unique_paths(out@),
                entry_views(out@) == first_of_each(sv.take(i as int)),
        {
            let ghost t = sv.take(i + 1);
            assert(t.drop_last() =~= sv.take(i as int));
            assert(t.last() == (src@[i as int].path@, src@[i as int].level));
            let mut found = false;
            let mut k: usize = 0;
            while k < out.len()
                invariant
                    k <= out@.len(),
                    i < n,
                    n == src@.len(),
                    found == exists|j: int| 0 <= j < k && out@[j].path@ == src@[i as int].path@,
                decreases out@.len() - k,
            {
                if str_eq(out[k].path.as_str(), src[i].path.as_str()) {
                    found = true;
                }
                k = k + 1;
            }
            let ghost d = entry_views(out@);
            assert((exists|j: int| 0 <= j < d.len() && d[j].0 == t.last().0) == found) by {
                if found {
                    let j = choose|j: int| 0 <= j < k && out@[j].path@ == src@[i as int].path@;
                    assert(d[j].0 == out@[j].path@);
                }
                if exists|j: int| 0 <= j < d.len() && d[j].0 == t.last().0 {
                    let j = choose|j: int| 0 <= j < d.len() && d[j].0 == t.last().0;
                    assert(out@[j].path@ == d[j].0);
                }
            }
            if !found {
                let e = AllowEntry { path: src[i].path.clone(), level: src[i].level };
                out.push(e);
                assert(entry_views(out@) =~= d.push(t.last()));
            }
        }
        assert(sv.take(n as int) =~= sv);
        AccessGate { workspace, policy: AccessPolicy { allowed: out }, policy_path }
    }

    /// A gate with an empty policy stored beside the workspace.
    pub fn in_memory(workspace: String) -> (r: Self)
        ensures
            r.workspace@ == workspace@,
            r.policy.allowed@.len() == 0,
            r.policy_path@ == workspace@ + "/access_policy.json"@,
    {
        let policy_path = concat2(workspace.as_str(), "/access_policy.json");
        AccessGate { workspace, policy: AccessPolicy { allowed: Vec::new() }, policy_path }
    }

    fn lookup(&self, p: &str, need: AccessLevel, suggest: &String) -> (r: AccessResult)
        ensures
            r.view() == lookup_outcome(self.policy.allowed@, p@, need, suggest@),
    {
        let n = self.policy.allowed.len();
        for i in 0..n
            invariant
                n == self.policy.allowed@.len(),
                forall|j: int| 0 <= j < i ==> !entry_matches(#[trigger] self.policy.allowed@[j], p@),
        {
            let e = &self.policy.allowed[i];
            if str_starts_with(p, e.path.as_str()) || str_eq(p, e.path.as_str()) {
                proof {
                    assert(first_match(self.policy.allowed@, p@, i as int));
                    let k = choose|k: int| first_match(self.policy.allowed@, p@, k);
                    assert(k == i) by {
                        if k < i {
                        } else if k > i {
                            assert(entry_matches(self.policy.allowed@[i as int], p@));
                        }
                    }
                }
                if e.level.satisfies(need) {
                    return AccessResult::Allowed;
                } else {
                    return AccessResult::NeedGrant { dir: copy_string(&e.path), need };
                }
            }
        }
        AccessResult::NeedGrant { dir: copy_string(suggest), need }
    }

    /// Decide whether `path` can be accessed at level `need`, given the file
    /// system facts about it.
    pub fn check_with(&self, path: &str, need: AccessLevel, facts: &PathFacts) -> (r: AccessResult)
        ensures
            r.view() == check_spec(self.workspace@, self.policy.allowed@, path@, need, *facts),
    {
        match need {
            AccessLevel::Ro => {
                if HardBaseline::path_read_denied(path) {
                    return AccessResult::Denied(
                        concat2("Read access denied: sensitive file (hard baseline): ", path),
                    );
                }
            },
            AccessLevel::Rw => {
                if HardBaseline::path_write_denied(path) {
                    return AccessResult::Denied(
                        concat2("Write access denied: sensitive path (hard baseline): ", path),
                    );
                }
                if HardBaseline::path_read_denied(path) {
                    return AccessResult::Denied(
                        concat2("Access denied: sensitive file (hard baseline): ", path),
                    );
                }
            },
        }
        match &facts.workspace_canonical {
            Some(w) => {
                match &facts.path_canonical {
                    Some(pc) => {
                        if path_starts_with_exec(pc.as_str(), w.as_str()) {
                            return AccessResult::Allowed;
                        }
                    },
                    None => {},
                }
                let normalized_path = normalize_path(path);
                if path_starts_with_exec(normalized_path.as_str(), w.as_str()) {
                    return AccessResult::Allowed;
                }
            },
            None => {},
        }
        if path_starts_with_exec(path, self.workspace.as_str()) {
            return AccessResult::Allowed;
        }
        match &facts.path_canonical {
            Some(pc) => self.lookup(pc.as_str(), need, &facts.nearest_dir),
            None => self.lookup(path, need, &facts.nearest_dir),
        }
    }

    /// Add `canonical` (the canonical form of `dir`) to the allow-list at
    /// `level`, or change the level of its entry. Sensitive paths are refused.
    pub fn grant_entry(&mut self, dir: &str, canonical: &str, level: AccessLevel) -> (r: Result<(), String>)
        requires
            unique_paths(old(self).policy.allowed@),
        ensures
            final(self).workspace == old(self).workspace,
            final(self).policy_path == old(self).policy_path,
            unique_paths(final(self).policy.allowed@),
            ({
                let refused = write_denied_spec(dir@) || read_denied_spec(dir@) || write_denied_spec(canonical@)
                    || read_denied_spec(canonical@);
                if refused {
                    &&& r matches Err(m) && m@ == "Cannot grant access to sensitive path: "@ + dir@
                    &&& final(self).policy == old(self).policy
                } else {
                    &&& r is Ok
                    &&& granted(old(self).policy.allowed@, final(self).policy.allowed@, canonical@, level)
                    &&& (listed(old(self).policy.allowed@, canonical@) ==> final(self).policy.allowed@.len() == old(self).policy.allowed@.len())
                    &&& (!listed(old(self).policy.allowed@, canonical@) ==> final(self).policy.allowed@ == old(self).policy.allowed@.push(final(self).policy.allowed@.last()))
                }
            }),
    {
        if HardBaseline::path_write_denied(dir) || HardBaseline::path_read_denied(dir)
            || HardBaseline::path_write_denied(canonical) || HardBaseline::path_read_denied(canonical) {
            return Err(concat2("Cannot grant access to sensitive path: ", dir));
        }
        let n = self.policy.allowed.len();
        for i in 0..n
            invariant
                n == self.policy.allowed@.len(),
                self.policy == old(self).policy,
                self.workspace == old(self).workspace,
                self.policy_path == old(self).policy_path,
                unique_paths(old(self).policy.allowed@),
                !(write_denied_spec(dir@) || read_denied_spec(dir@) || write_denied_spec(canonical@)
                    || read_denied_spec(canonical@)),
                forall|j: int| 0 <= j < i ==> old(self).policy.allowed@[j].path@ != canonical@,
        {
            if str_eq(self.policy.allowed[i].path.as_str(), canonical) {
                let entry = AllowEntry { path: self.policy.allowed[i].path.clone(), level };
                self.policy.allowed.set(i, entry);
                proof {
                    assert(self.policy.allowed@[i as int].path@ == canonical@);
                    assert(self.policy.allowed@[i as int].level == level);
                    assert(listed(old(self).policy.allowed@, canonical@));
                    assert(holds(self.policy.allowed@, canonical@, level));
                    assert forall|j: int| 0 <= j < self.policy.allowed@.len() && self.policy.allowed@[j].path@ == canonical@
                        implies #[trigger] self.policy.allowed@[j].level == level by {
                        if j != i {
                            assert(old(self).policy.allowed@[j].path@ != old(self).policy.allowed@[i as int].path@);
                        }
                    }
                }
                return Ok(());
            }
        }
        let entry = AllowEntry { path: owned(canonical), level };
        self.policy.allowed.push(entry);
        proof {
            assert(!listed(old(self).policy.allowed@, canonical@));
            assert(self.policy.allowed@[n as int].path@ == canonical@);
            assert(holds(self.policy.allowed@, canonical@, level));
        }
        Ok(())
    }

    /// Remove `canonical` (the canonical form of `dir`) from the allow-list.
    pub fn revoke_entry(&mut self, dir: &str, canonical: &str) -> (r: Result<(), String>)
        requires
            unique_paths(old(self).policy.allowed@),
        ensures
            final(self).workspace == old(self).workspace,
            final(self).policy_path == old(self).policy_path,
            unique_paths(final(self).policy.allowed@),
            !listed(final(self).policy.allowed@, canonical@),
            listed(old(self).policy.allowed@, canonical@) ==> r is Ok,
            !listed(old(self).policy.allowed@, canonical@) ==> (r matches Err(m) && m@ == "Path not in allow-list: "@ + dir@)
                && final(self).policy.allowed@ == old(self).policy.allowed@,
            final(self).policy.allowed@ == old(self).policy.allowed@.filter(keeps(canonical@)),
    {
        let ghost pred = keeps(canonical@);
        let mut kept: Vec<AllowEntry> = Vec::new();
        let n = self.policy.allowed.len();
        let mut removed = false;
        for i in 0..n
            invariant
                n == self.policy.allowed@.len(),
                self.policy == old(self).policy,
                pred == keeps(canonical@),
                kept@ == self.policy.allowed@.take(i as int).filter(pred),
                removed == listed(self.policy.allowed@.take(i as int), canonical@),
        {
            let e = &self.policy.allowed[i];
            let ghost prefix = self.policy.allowed@.take(i as int);
            assert(self.policy.allowed@.take(i + 1).drop_last() =~= prefix);
            reveal_with_fuel(Seq::filter, 1);
            if str_eq(e.path.as_str(), canonical) {
                removed = true;
                assert(self.policy.allowed@.take(i + 1)[i as int].path@ == canonical@);
            } else {
                kept.push(AllowEntry { path: e.path.clone(), level: e.level });
                proof {
                    assert(kept@.last() == self.policy.allowed@[i as int]);
                    if listed(self.policy.allowed@.take(i + 1), canonical@) {
                        let k = choose|k: int| 0 <= k < i + 1 && #[trigger] self.policy.allowed@.take(i + 1)[k].path@ == canonical@;
                        assert(self.policy.allowed@.take(i as int)[k].path@ == canonical@);
                    }
                }
            }
        }
        assert(self.policy.allowed@.take(n as int) =~= self.policy.allowed@);
        if !removed {
            proof {
                lemma_filter_all(self.policy.allowed@, canonical@);
            }
            return Err(concat2("Path not in allow-list: ", dir));
        }
        self.policy.allowed = kept;
        proof {
            lemma_filter_unique(old(self).policy.allowed@, canonical@);
        }
        Ok(())
    }

    /// The allow-list entries.
    pub fn list(&self) -> (r: &Vec<AllowEntry>)
        ensures
            r@ == self.policy.allowed@,
    {
        &self.policy.allowed
    }
}

impl AccessGate {
    /// Grants automatically where a grant is allowed: `Ok` when the path was
    /// safe to grant, the reason otherwise.
    pub fn try_auto_grant(&mut self, dir: &str, canonical: &str, level: AccessLevel) -> (r: Result<(), String>)
        requires
            unique_paths(old(self).policy.allowed@),
        ensures
            final(self).workspace == old(self).workspace,
            final(self).policy_path == old(self).policy_path,
            unique_paths(final(self).policy.allowed@),
            ({
                let refused = write_denied_spec(dir@) || read_denied_spec(dir@) || write_denied_spec(canonical@)
                    || read_denied_spec(canonical@);
                if refused {
                    &&& r matches Err(m) && m@ == "Cannot grant access to sensitive path: "@ + dir@
                    &&& final(self).policy == old(self).policy
                } else {
                    &&& r is Ok
                    &&& granted(old(self).policy.allowed@, final(self).policy.allowed@, canonical@, level)
                }
            }),
    {
        self.grant_entry(dir, canonical, level)
    }

    /// The allowed directories with their levels.
    pub fn allowed_dirs(&self) -> (r: Vec<(String, AccessLevel)>)
        ensures
            r@.len() == self.policy.allowed@.len(),
            forall|i: int| 0 <= i < r@.len() ==> (#[trigger] r@[i]).0@ == self.policy.allowed@[i].path@
                && r@[i].1 == self.policy.allowed@[i].level,
    {
        let mut out: Vec<(String, AccessLevel)> = Vec::new();
        let n = self.policy.allowed.len();
        for i in 0..n
            invariant
                n == self.policy.allowed@.len(),
                out@.len() == i,
                forall|k: int| 0 <= k < i ==> (#[trigger] out@[k]).0@ == self.policy.allowed@[k].path@
                    && out@[k].1 == self.policy.allowed@[k].level,
        {
            out.push((copy_string(&self.policy.allowed[i].path), self.policy.allowed[i].level));
        }
        out
    }
}

// ───────────────────────────── Resolving requested paths ─────────────────────────────

/// `base` joined with `rel` as `PathBuf::push` joins them: an absolute `rel`
/// replaces `base`; otherwise a `/` goes between them unless `base` is empty
/// or ends with one.
pub open spec fn path_join(base: Seq<char>, rel: Seq<char>) -> Seq<char> {
    if is_absolute(rel) {
        rel
    } else if base.len() == 0 || base.last() == '/' {
        base + rel
    } else {
        base + "/"@ + rel
    }
}

/// A requested path with a leading `~` replaced by the home directory (when
/// one is known).
pub open spec fn expand_home(requested: Seq<char>, home: Option<Seq<char>>) -> Seq<char> {
    if requested == "~"@ || has_prefix(requested, "~/"@) {
        match home {
            Some(h) => if requested == "~"@ {
                h
            } else {
                h + requested.skip(1)
            },
            None => requested,
        }
    } else {
        requested
    }
}

/// Where a requested path points before the file system is asked: `~`
/// expanded, relative paths taken from the (canonical) workspace.
pub open spec fn requested_candidate(workspace: Seq<char>, requested: Seq<char>, home: Option<Seq<char>>) -> Seq<char> {
    let e = expand_home(requested, home);
    if is_absolute(e) {
        e
    } else {
        path_join(workspace, e)
    }
}

/// Joins two paths.
pub fn join_path(base: &str, rel: &str) -> (r: String)
    ensures
        r@ == path_join(base@, rel@),
{
    let rc = chars_of(rel);
    if rc.len() > 0 && rc[0] == '/' {
        return owned(rel);
    }
    let bc = chars_of(base);
    if bc.len() == 0 || bc[bc.len() - 1] == '/' {
        concat2(base, rel)
    } else {
        let mut r = concat2(base, "/");
        push_str(&mut r, rel);
        r
    }
}

/// The path a request names, before the file system resolves links: an empty
/// request is refused; `~` stands for the home directory; relative paths are
/// taken from the workspace (canonical where it could be made so).
pub fn path_candidate(workspace: &str, requested: &str, home: Option<&str>) -> (r: Result<String, String>)
    ensures
        requested@.len() == 0 ==> (r matches Err(m) && m@ == "path must not be empty"@),
        requested@.len() > 0 ==> (r matches Ok(c) && c@ == requested_candidate(
            workspace@,
            requested@,
            match home {
                Some(h) => Some(h@),
                None => None,
            },
        )),
{
    let rc = chars_of(requested);
    if rc.len() == 0 {
        return Err(owned("path must not be empty"));
    }
    let is_tilde = str_eq(requested, "~");
    let expanded = if is_tilde || str_starts_with(requested, "~/") {
        match home {
            Some(h) => if is_tilde {
                owned(h)
            } else {
                proof {
                    reveal_strlit("~/");
                }
                let rest = string_from_chars(slice_chars(rc.as_slice(), 1, rc.len()).as_slice());
                assert(rest@ =~= requested@.skip(1));
                concat2(h, rest.as_str())
            },
            None => owned(requested),
        }
    } else {
        owned(requested)
    };
    let ec = chars_of(expanded.as_str());
    if ec.len() > 0 && ec[0] == '/' {
        Ok(expanded)
    } else {
        Ok(join_path(workspace, expanded.as_str()))
    }
}

/// The resolved form of a candidate path: its canonical form when it exists
/// (`canonical`, from the file system), otherwise its logical normalisation.
pub fn resolve_path(candidate: &str, canonical: Option<String>) -> (r: String)
    ensures
        match canonical {
            Some(c) => r == c,
            None => r@ == normalized(candidate@),
        },
{
    match canonical {
        Some(c) => c,
        None => normalize_path(candidate),
    }
}

// ───────────────────────────── Access tools ─────────────────────────────

/// The answer of `grant_access` (text and whether it is an error), or the
/// error for a missing field.
pub open spec fn grant_answer_ok(level_text: Seq<char>, path: Seq<char>) -> Seq<char> {
    "Granted "@ + level_text + " access to "@ + path
}

/// Tool `grant_access`: grants a directory outside the workspace.
pub struct GrantAccessTool;

/// Tool `list_access`: lists the granted directories.
pub struct ListAccessTool;

/// Tool `revoke_access`: removes a granted directory.
pub struct RevokeAccessTool;

impl GrantAccessTool {
    /// Runs the tool on `gate` with the call's `path` and `level` fields;
    /// `canonical` is the canonical form of the path (the path itself when it
    /// has none).
    pub fn execute(
        &self,
        gate: &mut AccessGate,
        path: Option<&str>,
        level: Option<&str>,
        canonical: &str,
    ) -> (r: Result<ToolOutput, String>)
        requires
            unique_paths(old(gate).policy.allowed@),
        ensures
            unique_paths(final(gate).policy.allowed@),
            final(gate).workspace == old(gate).workspace,
            final(gate).policy_path == old(gate).policy_path,
            match (path, level) {
                (None, _) => r matches Err(m) && m@ == "missing 'path' field"@ && final(gate).policy == old(gate).policy,
                (Some(_), None) => r matches Err(m) && m@ == "missing 'level' field"@ && final(gate).policy == old(gate).policy,
                (Some(p), Some(l)) => r matches Ok(o) && if l@ != "ro"@ && l@ != "rw"@ {
                    &&& o.content@ == "Invalid access level: "@ + l@ + ". Use 'ro' or 'rw'."@
                    &&& o.is_error
                    &&& final(gate).policy == old(gate).policy
                } else if !is_absolute(p@) {
                    &&& o.content@ == "Path must be absolute."@
                    &&& o.is_error
                    &&& final(gate).policy == old(gate).policy
                } else {
                    let lv = if l@ == "ro"@ { AccessLevel::Ro } else { AccessLevel::Rw };
                    let refused = write_denied_spec(p@) || read_denied_spec(p@) || write_denied_spec(canonical@)
                        || read_denied_spec(canonical@);
                    if refused {
                        &&& o.content@ == "Failed to grant access: "@ + "Cannot grant access to sensitive path: "@ + p@
                        &&& o.is_error
                        &&& final(gate).policy == old(gate).policy
                    } else {
                        &&& o.content@ == grant_answer_ok(l@, p@)
                        &&& !o.is_error
                        &&& granted(old(gate).policy.allowed@, final(gate).policy.allowed@, canonical@, lv)
                    }
                },
            },
    {
        let p = match path {
            Some(p) => p,
            None => return Err(owned("missing 'path' field")),
        };
        let level_text = match level {
            Some(l) => l,
            None => return Err(owned("missing 'level' field")),
        };
        let level = if str_eq(level_text, "ro") {
            AccessLevel::Ro
        } else if str_eq(level_text, "rw") {
            AccessLevel::Rw
        } else {
            let mut content = concat2("Invalid access level: ", level_text);
            push_str(&mut content, ". Use 'ro' or 'rw'.");
            return Ok(ToolOutput { content, is_error: true });
        };
        let pc = chars_of(p);
        if !(pc.len() > 0 && pc[0] == '/') {
            return Ok(ToolOutput { content: owned("Path must be absolute."), is_error: true });
        }
        match gate.grant_entry(p, canonical, level) {
            Ok(()) => {
                let mut content = concat2("Granted ", level_text);
                push_str(&mut content, " access to ");
                push_str(&mut content, p);
                Ok(ToolOutput { content, is_error: false })
            },
            Err(e) => {
                let content = concat2("Failed to grant access: ", e.as_str());
                Ok(ToolOutput { content, is_error: true })
            },
        }
    }
}

/// The lines of the granted directories: `  path (level)` each.
pub open spec fn access_lines(entries: Seq<AllowEntry>) -> Seq<char>
    decreases entries.len(),
{
    if entries.len() == 0 {
        Seq::empty()
    } else {
        let e = entries.last();
        access_lines(entries.drop_last()) + "  "@ + e.path@ + " ("@ + level_text(e.level) + ")\n"@
    }
}

/// `ro` or `rw`.
pub open spec fn level_text(l: AccessLevel) -> Seq<char> {
    match l {
        AccessLevel::Ro => "ro"@,
        AccessLevel::Rw => "rw"@,
    }
}

impl ListAccessTool {
    /// Lists the granted directories of `gate`.
    pub fn execute(&self, gate: &AccessGate) -> (r: ToolOutput)
        ensures
            !r.is_error,
            gate.policy.allowed@.len() == 0 ==> r.content@ == "No external directories are currently authorized."@,
            gate.policy.allowed@.len() > 0 ==> r.content@ == "Authorized directories:\n"@ + access_lines(gate.policy.allowed@),
    {
        let entries = &gate.policy.allowed;
        if entries.len() == 0 {
            return ToolOutput { content: owned("No external directories are currently authorized."), is_error: false };
        }
        let mut out = owned("Authorized directories:\n");
        let n = entries.len();
        assert(entries@.take(0) =~= Seq::<AllowEntry>::empty());
        for i in 0..n
            invariant
                n == entries@.len(),
                out@ == "Authorized directories:\n"@ + access_lines(entries@.take(i as int)),
        {
            let ghost t = entries@.take(i + 1);
            assert(t.drop_last() =~= entries@.take(i as int));
            assert(t.last() == entries@[i as int]);
            push_str(&mut out, "  ");
            push_str(&mut out, entries[i].path.as_str());
            push_str(&mut out, " (");
            push_str(&mut out, entries[i].level.name());
            push_str(&mut out, ")\n");
        }
        assert(entries@.take(n as int) =~= entries@);
        ToolOutput { content: out, is_error: false }
    }
}

impl RevokeAccessTool {
    /// Runs the tool on `gate` with the call's `path` field; `canonical` is the
    /// canonical form of the path (the path itself when it has none).
    pub fn execute(&self, gate: &mut AccessGate, path: Option<&str>, canonical: &str) -> (r: Result<ToolOutput, String>)
        requires
            unique_paths(old(gate).policy.allowed@),
        ensures
            unique_paths(final(gate).policy.allowed@),
            final(gate).workspace == old(gate).workspace,
            final(gate).policy_path == old(gate).policy_path,
            match path {
                None => r matches Err(m) && m@ == "missing 'path' field"@ && final(gate).policy == old(gate).policy,
                Some(p) => r matches Ok(o) && final(gate).policy.allowed@ == old(gate).policy.allowed@.filter(
                    keeps(canonical@),
                ) && if listed(old(gate).policy.allowed@, canonical@) {
                    o.content@ == "Revoked access to "@ + p@ && !o.is_error
                } else {
                    o.content@ == "Failed to revoke access: "@ + "Path not in allow-list: "@ + p@ && o.is_error
                },
            },
    {
        let p = match path {
            Some(p) => p,
            None => return Err(owned("missing 'path' field")),
        };
        match gate.revoke_entry(p, canonical) {
            Ok(()) => Ok(ToolOutput { content: concat2("Revoked access to ", p), is_error: false }),
            Err(e) => Ok(ToolOutput { content: concat2("Failed to revoke access: ", e.as_str()), is_error: true }),
        }
    }
}

proof fn lemma_filter_all(s: Seq<AllowEntry>, p: Seq<char>)
    requires
        !listed(s, p),
    ensures
        s.filter(keeps(p)) == s,
    decreases s.len(),
{
    reveal_with_fuel(Seq::filter, 1);
    if s.len() > 0 {
        assert(!listed(s.drop_last(), p)) by {
            if listed(s.drop_last(), p) {
                let k = choose|k: int| 0 <= k < s.drop_last().len() && #[trigger] s.drop_last()[k].path@ == p;
                assert(s[k].path@ == p);
            }
        }
        lemma_filter_all(s.drop_last(), p);
        assert(s.last().path@ != p);
        assert(s.drop_last().push(s.last()) =~= s);
    }
}

proof fn lemma_filter_unique(s: Seq<AllowEntry>, p: Seq<char>)
    requires
        unique_paths(s),
    ensures
        unique_paths(s.filter(keeps(p))),
        !listed(s.filter(keeps(p)), p),
    decreases s.len(),
{
    reveal_with_fuel(Seq::filter, 1);
    let f = s.filter(keeps(p));
    if s.len() > 0 {
        let d = s.drop_last();
        assert(unique_paths(d));
        lemma_filter_unique(d, p);
        let fd = d.filter(keeps(p));
        if s.last().path@ != p {
            assert(f == fd.push(s.last()));
            assert forall|i: int, j: int| 0 <= i < j < f.len() implies f[i].path@ != f[j].path@ by {
                if j == f.len() - 1 {
                    let e = fd[i];
                    assert(fd.contains(e));
                    d.lemma_filter_contains_rev(keeps(p), e);
                    let k = choose|k: int| 0 <= k < d.len() && d[k] == e;
                    assert(s[k].path@ != s[s.len() - 1].path@);
                }
            }
            assert(!listed(f, p)) by {
                if listed(f, p) {
                    let k = choose|k: int| 0 <= k < f.len() && #[trigger] f[k].path@ == p;
                    if k < fd.len() {
                        assert(fd[k].path@ == p);
                    }
                }
            }
        } else {
            assert(f == fd);
        }
    }
}

// ───────────────────────────── Laws ─────────────────────────────

/// A matching entry implies a first matching entry.
pub proof fn lemma_first_match_exists(entries: Seq<AllowEntry>, p: Seq<char>, k: int)
    requires
        0 <= k < entries.len(),
        entry_matches(entries[k], p),
    ensures
        exists|i: int| first_match(entries, p, i),
    decreases k,
{
    if exists|j: int| 0 <= j < k && entry_matches(#[trigger] entries[j], p) {
        let j = choose|j: int| 0 <= j < k && entry_matches(#[trigger] entries[j], p);
        lemma_first_match_exists(entries, p, j);
    } else {
        assert(first_match(entries, p, k));
    }
}

/// Hard baseline first: a path whose read is denied is denied at any level,
/// whatever the workspace and the allow-list say.
pub proof fn law_baseline_denies_first(
    workspace: Seq<char>,
    entries: Seq<AllowEntry>,
    path: Seq<char>,
    need: AccessLevel,
    facts: PathFacts,
)
    requires
        read_denied_spec(path),
    ensures
        check_spec(workspace, entries, path, need, facts) is Denied,
{
}

/// Paths inside the workspace are always allowed, unless the hard baseline denies them.
pub proof fn law_workspace_allowed(
    workspace: Seq<char>,
    entries: Seq<AllowEntry>,
    path: Seq<char>,
    need: AccessLevel,
    facts: PathFacts,
)
    requires
        path_starts_with(path, workspace),
        !read_denied_spec(path),
        need == AccessLevel::Rw ==> !write_denied_spec(path),
    ensures
        check_spec(workspace, entries, path, need, facts) is Allowed,
{
}

/// After a grant of `c` at a level that satisfies `need`, checking `c` is
/// allowed, provided no other entry of the list already covers `c`.
pub proof fn law_grant_then_check_allowed(
    workspace: Seq<char>,
    old_entries: Seq<AllowEntry>,
    new_entries: Seq<AllowEntry>,
    c: Seq<char>,
    level: AccessLevel,
    path: Seq<char>,
    need: AccessLevel,
    facts: PathFacts,
)
    requires
        granted(old_entries, new_entries, c, level),
        forall|j: int| 0 <= j < old_entries.len() && old_entries[j].path@ != c ==> !entry_matches(#[trigger] old_entries[j], c),
        (match facts.path_canonical { Some(pc) => pc@, None => path }) == c,
        !read_denied_spec(path),
        need == AccessLevel::Rw ==> !write_denied_spec(path),
        !in_workspace(workspace, path, facts),
        level_satisfies(level, need),
    ensures
        check_spec(workspace, new_entries, path, need, facts) is Allowed,
{
    let k = choose|k: int| 0 <= k < new_entries.len() && new_entries[k].path@ == c && new_entries[k].level == level;
    assert(entry_matches(new_entries[k], c));
    assert(!no_match(new_entries, c));
    lemma_first_match_exists(new_entries, c, k);
    let i = choose|i: int| first_match(new_entries, c, i);
    if new_entries[i].path@ != c {
        if i < old_entries.len() {
            if old_entries[i].path@ == c {
                assert(new_entries[i].path@ == c);
            } else {
                assert(new_entries[i] == old_entries[i]);
                assert(!entry_matches(old_entries[i], c));
            }
        } else {
            assert(new_entries[i].path@ == c);
        }
    }
    assert(new_entries[i].level == level);
}

/// After `c` is revoked, checking `c` needs a grant again (the suggestion is the
/// nearest existing directory), provided no other entry covers `c`.
pub proof fn law_revoke_then_need_grant(
    workspace: Seq<char>,
    old_entries: Seq<AllowEntry>,
    c: Seq<char>,
    path: Seq<char>,
    need: AccessLevel,
    facts: PathFacts,
)
    requires
        forall|j: int| 0 <= j < old_entries.len() && old_entries[j].path@ != c ==> !entry_matches(#[trigger] old_entries[j], c),
        (match facts.path_canonical { Some(pc) => pc@, None => path }) == c,
        !read_denied_spec(path),
        need == AccessLevel::Rw ==> !write_denied_spec(path),
        !in_workspace(workspace, path, facts),
    ensures
        check_spec(workspace, old_entries.filter(keeps(c)), path, need, facts)
            == AccessOutcome::NeedGrant(facts.nearest_dir@, need),
{
    let f = old_entries.filter(keeps(c));
    assert forall|j: int| 0 <= j < f.len() implies !entry_matches(#[trigger] f[j], c) by {
        let e = f[j];
        assert(f.contains(e));
        old_entries.lemma_filter_contains_rev(keeps(c), e);
        let k = choose|k: int| 0 <= k < old_entries.len() && old_entries[k] == e;
        old_entries.filter_lemma(keeps(c));
        assert(keeps(c)(f[j]));
    }
}

} // verus!
