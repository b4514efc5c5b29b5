//! Installing skills: the risk scan of a skill's files, the analysis report,
//! and the checks on where a skill comes from.
use vstd::prelude::*;
use crate::text::{has_prefix, has_suffix, contains_seq, lower_text, trim, trim_start, lines, seq_join, views, decimal, occurs_at, first_occurrence, chars_of, string_from_chars, slice_chars, owned, push_str, str_eq, str_contains, to_lowercase, lines_chars, char_views, join_strings, copy_string, usize_to_string, trim_bounds, find_from, starts_with_chars, str_ends_with, trim_str, char_count};
use crate::policy::Permissions;
use crate::url::{opt_text, parse_url, url_parts};

verus! {

// ───────────────────────────── Risk scan ─────────────────────────────

/// A suspicious pattern found in a skill's files.
pub struct SkillRiskFinding {
    /// `critical`, `high` or `medium`.
    pub severity: &'static str,
    pub file: String,
    pub line: usize,
    pub pattern: &'static str,
    pub reason: &'static str,
}

/// Model of a finding.
pub struct FindingView {
    pub severity: Seq<char>,
    pub file: Seq<char>,
    pub line: nat,
    pub pattern: Seq<char>,
    pub reason: Seq<char>,
}

pub open spec fn finding_view(f: SkillRiskFinding) -> FindingView {
    FindingView {
        severity: f.severity@,
        file: f.file@,
        line: f.line as nat,
        pattern: f.pattern@,
        reason: f.reason@,
    }
}

pub open spec fn finding_views(fs: Seq<SkillRiskFinding>) -> Seq<FindingView> {
    fs.map_values(|f: SkillRiskFinding| finding_view(f))
}

/// The patterns the scan looks for: severity, pattern, and what it means.
pub open spec fn risk_checks() -> Seq<(Seq<char>, Seq<char>, Seq<char>)> {
    seq![
        ("critical"@, "rm -rf /"@, "Destructive filesystem wipe command"@),
        ("critical"@, "mkfs"@, "Potential disk formatting command"@),
        ("high"@, "curl"@, "Network fetch command found; verify intent"@),
        ("high"@, "wget"@, "Network fetch command found; verify intent"@),
        ("high"@, "| sh"@, "Piping content to shell can execute untrusted code"@),
        ("high"@, "base64 -d"@, "Potential obfuscated payload decode"@),
        ("high"@, "sudo "@, "Privilege escalation command detected"@),
        ("medium"@, "~/.ssh"@, "Accessing SSH config/key paths"@),
        ("medium"@, "~/.aws"@, "Accessing cloud credential paths"@),
    ]
}

/// The findings of one line for the first `k` checks, in check order: a check
/// matches when the lowercased line contains its lowercased pattern.
pub open spec fn line_findings_upto(file: Seq<char>, line_no: nat, line: Seq<char>, k: int) -> Seq<FindingView>
    decreases k,
{
    if k <= 0 {
        Seq::empty()
    } else {
        let prev = line_findings_upto(file, line_no, line, k - 1);
        let c = risk_checks()[k - 1];
        if contains_seq(lower_text(line), lower_text(c.1)) {
            prev.push(FindingView { severity: c.0, file, line: line_no, pattern: c.1, reason: c.2 })
        } else {
            prev
        }
    }
}

/// The findings of one line.
pub open spec fn line_findings(file: Seq<char>, line_no: nat, line: Seq<char>) -> Seq<FindingView> {
    line_findings_upto(file, line_no, line, 9)
}

/// Appends the findings of one line of a file.
pub fn scan_line(path: &str, line_no: usize, line: &str, findings: &mut Vec<SkillRiskFinding>)
    ensures
        finding_views(final(findings)@) == finding_views(old(findings)@) + line_findings(
            path@,
            line_no as nat,
            line@,
        ),
{
    let checks: [(&'static str, &'static str, &'static str); 9] = [
        ("critical", "rm -rf /", "Destructive filesystem wipe command"),
        ("critical", "mkfs", "Potential disk formatting command"),
        ("high", "curl", "Network fetch command found; verify intent"),
        ("high", "wget", "Network fetch command found; verify intent"),
        ("high", "| sh", "Piping content to shell can execute untrusted code"),
        ("high", "base64 -d", "Potential obfuscated payload decode"),
        ("high", "sudo ", "Privilege escalation command detected"),
        ("medium", "~/.ssh", "Accessing SSH config/key paths"),
        ("medium", "~/.aws", "Accessing cloud credential paths"),
    ];
    let ghost spec_checks = risk_checks();
    assert(forall|i: int|
        0 <= i < 9 ==> (#[trigger] checks@[i]).0@ == spec_checks[i].0 && checks@[i].1@
            == spec_checks[i].1 && checks@[i].2@ == spec_checks[i].2);
    let normalized = to_lowercase(line);
    let ghost start = finding_views(findings@);
    for i in 0..9
        invariant
            forall|j: int|
                0 <= j < 9 ==> (#[trigger] checks@[j]).0@ == spec_checks[j].0 && checks@[j].1@
                    == spec_checks[j].1 && checks@[j].2@ == spec_checks[j].2,
            spec_checks == risk_checks(),
            normalized@ == lower_text(line@),
            finding_views(findings@) == start + line_findings_upto(path@, line_no as nat, line@, i as int),
    {
        let (severity, pattern, detail) = checks[i];
        let p = to_lowercase(pattern);
        if str_contains(normalized.as_str(), p.as_str()) {
            let ghost before = finding_views(findings@);
            findings.push(
                SkillRiskFinding {
                    severity,
                    file: owned(path),
                    line: line_no,
                    pattern,
                    reason: detail,
                },
            );
            assert(finding_views(findings@) =~= before.push(
                FindingView {
                    severity: spec_checks[i as int].0,
                    file: path@,
                    line: line_no as nat,
                    pattern: spec_checks[i as int].1,
                    reason: spec_checks[i as int].2,
                },
            ));
        }
    }
}

/// The findings of a file's text, line by line (lines numbered from 1).
pub open spec fn text_findings_upto(file: Seq<char>, ls: Seq<Seq<char>>, k: int) -> Seq<FindingView>
    decreases k,
{
    if k <= 0 {
        Seq::empty()
    } else {
        text_findings_upto(file, ls, k - 1) + line_findings(file, k as nat, ls[k - 1])
    }
}

/// Scans every line of a file's text.
pub fn scan_text(path: &str, text: &str, findings: &mut Vec<SkillRiskFinding>)
    ensures
        finding_views(final(findings)@) == finding_views(old(findings)@) + text_findings_upto(
            path@,
            lines(text@),
            lines(text@).len() as int,
        ),
{
    let cs = chars_of(text);
    let ls = lines_chars(cs.as_slice());
    let ghost lv = lines(text@);
    let ghost start = finding_views(findings@);
    for i in 0..ls.len()
        invariant
            char_views(ls@) == lv,
            finding_views(findings@) == start + text_findings_upto(path@, lv, i as int),
    {
        let line = string_from_chars(ls[i].as_slice());
        assert(lv[i as int] == line@);
        let ghost before = finding_views(findings@);
        scan_line(path, i + 1, line.as_str(), findings);
        assert(finding_views(findings@) =~= start + text_findings_upto(path@, lv, i + 1));
    }
}

// ───────────────────────────── Reports ─────────────────────────────

/// What the analysis of a skill found.
pub struct SkillAnalysisReport {
    pub source: String,
    pub skill_name: String,
    pub description: String,
    pub permissions: Option<Permissions>,
    pub findings: Vec<SkillRiskFinding>,
}

/// Where an installed skill went, and whether it carried high-risk findings.
pub struct InstallResult {
    pub target: String,
    pub high_risk: bool,
}

/// A finding of severity `high` or `critical` is among them.
pub open spec fn any_high_risk(fs: Seq<SkillRiskFinding>) -> bool {
    exists|i: int|
        0 <= i < fs.len() && ((#[trigger] fs[i]).severity@ == "high"@ || fs[i].severity@
            == "critical"@)
}

/// Whether the report holds a `high` or `critical` finding.
pub fn has_high_risk_findings(report: &SkillAnalysisReport) -> (r: bool)
    ensures
        r == any_high_risk(report.findings@),
{
    let fs = &report.findings;
    for i in 0..fs.len()
        invariant
            fs == &report.findings,
            forall|k: int|
                0 <= k < i ==> !((#[trigger] fs@[k]).severity@ == "high"@ || fs@[k].severity@
                    == "critical"@),
    {
        if str_eq(fs[i].severity, "high") || str_eq(fs[i].severity, "critical") {
            return true;
        }
    }
    false
}

/// One line of a permission list, when the list is not empty.
pub open spec fn list_line(label: Seq<char>, items: Seq<String>) -> Seq<Seq<char>> {
    if items.len() == 0 {
        Seq::empty()
    } else {
        seq!["  "@ + label + ": "@ + seq_join(views(items), ", "@)]
    }
}

/// The lines describing requested permissions.
pub open spec fn permission_lines(p: Permissions) -> Seq<Seq<char>> {
    seq!["Requested permissions:"@] + list_line("fs.read"@, p.fs.read@) + list_line(
        "fs.write"@,
        p.fs.write@,
    ) + list_line("network.allow"@, p.network.allow@) + list_line("exec"@, p.exec_commands@)
        + list_line("env"@, p.env@) + list_line("services"@, p.services@)
}

fn push_list_line(out: &mut Vec<String>, label: &str, items: &Vec<String>)
    ensures
        views(final(out)@) == views(old(out)@) + list_line(label@, items@),
{
    let ghost before = views(out@);
    if items.len() > 0 {
        let mut line = owned("  ");
        push_str(&mut line, label);
        push_str(&mut line, ": ");
        let joined = join_strings(items, ", ");
        push_str(&mut line, joined.as_str());
        out.push(line);
    }
    assert(views(out@) =~= before + list_line(label@, items@));
}

/// The lines describing the permissions a skill requests.
pub fn render_permissions_lines(permissions: &Permissions) -> (r: Vec<String>)
    ensures
        views(r@) == permission_lines(*permissions),
{
    let mut out: Vec<String> = Vec::new();
    out.push(owned("Requested permissions:"));
    push_list_line(&mut out, "fs.read", &permissions.fs.read);
    push_list_line(&mut out, "fs.write", &permissions.fs.write);
    push_list_line(&mut out, "network.allow", &permissions.network.allow);
    push_list_line(&mut out, "exec", &permissions.exec_commands);
    push_list_line(&mut out, "env", &permissions.env);
    push_list_line(&mut out, "services", &permissions.services);
    assert(views(out@) =~= permission_lines(*permissions));
    out
}

/// One finding as listed: `  [severity] file:line pattern='...' reason`.
pub open spec fn finding_line(f: FindingView) -> Seq<char> {
    "  ["@ + f.severity + "] "@ + f.file + ":"@ + decimal(f.line) + " pattern='"@ + f.pattern
        + "' "@ + f.reason
}

/// The lines of an analysis report.
pub open spec fn analysis_lines(r: SkillAnalysisReport) -> Seq<Seq<char>> {
    let head = seq![
        "Skill source: "@ + r.source@,
        "Skill name: "@ + r.skill_name@,
        "Description: "@ + r.description@,
    ];
    let perms = match r.permissions {
        Some(p) => seq!["Permissions declared in SKILL.md: yes"@] + permission_lines(p),
        None => seq![
            "Permissions declared in SKILL.md: no"@,
            "Effective behavior: default deny-first sandbox policy will be used."@,
        ],
    };
    let fs = finding_views(r.findings@);
    let scan = if fs.len() == 0 {
        seq!["Risk scan: no obvious unsafe patterns found."@]
    } else {
        seq!["Risk scan findings ("@ + decimal(fs.len()) + "):"@] + fs.map_values(
            |f: FindingView| finding_line(f),
        )
    };
    head + perms + scan
}

/// The analysis of a skill reads: its source, name and description, then its
/// permissions, then the risk scan: one line saying nothing was found, or a
/// line counting the findings followed by one line per finding, in order.
pub proof fn law_analysis_layout(r: SkillAnalysisReport)
    ensures
        ({
            let ls = analysis_lines(r);
            let fs = finding_views(r.findings@);
            let n = fs.len();
            &&& ls[0] == "Skill source: "@ + r.source@
            &&& ls[1] == "Skill name: "@ + r.skill_name@
            &&& ls[2] == "Description: "@ + r.description@
            &&& n == 0 ==> ls.last() == "Risk scan: no obvious unsafe patterns found."@
            &&& n > 0 ==> {
                &&& ls.len() >= n + 4
                &&& ls[ls.len() - n - 1] == "Risk scan findings ("@ + decimal(n) + "):"@
                &&& forall|k: int| 0 <= k < n ==> #[trigger] ls[ls.len() - n + k] == finding_line(fs[k])
            }
        }),
{
    let ls = analysis_lines(r);
    let fs = finding_views(r.findings@);
    let n = fs.len();
    let head = seq![
        "Skill source: "@ + r.source@,
        "Skill name: "@ + r.skill_name@,
        "Description: "@ + r.description@,
    ];
    let perms = match r.permissions {
        Some(p) => seq!["Permissions declared in SKILL.md: yes"@] + permission_lines(p),
        None => seq![
            "Permissions declared in SKILL.md: no"@,
            "Effective behavior: default deny-first sandbox policy will be used."@,
        ],
    };
    assert(perms.len() >= 1);
    if n > 0 {
        let scan = seq!["Risk scan findings ("@ + decimal(n) + "):"@] + fs.map_values(
            |f: FindingView| finding_line(f),
        );
        assert(ls == head + perms + scan);
        assert forall|k: int| 0 <= k < n implies #[trigger] ls[ls.len() - n + k] == finding_line(fs[k]) by {
            assert(ls[ls.len() - n + k] == scan[k + 1]);
        }
    }
}

/// The rendered analysis as text: the source, name and description lines,
/// then the permission lines starting with whether SKILL.md declares any, then
/// the risk scan; it ends with the "no obvious unsafe patterns" line when
/// nothing was found, and otherwise its last part starts with the line
/// counting the findings.
pub proof fn law_analysis_text(r: SkillAnalysisReport)
    ensures
        ({
            let ls = analysis_lines(r);
            let text = seq_join(ls, "\n"@);
            let n = finding_views(r.findings@).len();
            &&& text == ("Skill source: "@ + r.source@) + "\n"@ + ("Skill name: "@ + r.skill_name@) + "\n"@ + (
                "Description: "@ + r.description@) + "\n"@ + seq_join(ls.skip(3), "\n"@)
            &&& has_prefix(
                seq_join(ls.skip(3), "\n"@),
                if r.permissions is Some {
                    "Permissions declared in SKILL.md: yes"@
                } else {
                    "Permissions declared in SKILL.md: no"@
                },
            )
            &&& n == 0 ==> has_suffix(text, "\n"@ + "Risk scan: no obvious unsafe patterns found."@)
            &&& n > 0 ==> {
                &&& text == seq_join(ls.take(ls.len() - n - 1), "\n"@) + "\n"@ + seq_join(ls.skip(ls.len() - n - 1), "\n"@)
                &&& has_prefix(seq_join(ls.skip(ls.len() - n - 1), "\n"@), "Risk scan findings ("@ + decimal(n) + "):"@)
            }
        }),
{
    let ls = analysis_lines(r);
    let sep = "\n"@;
    let n = finding_views(r.findings@).len();
    law_analysis_layout(r);
    assert(ls.len() >= 5);
    crate::text::lemma_join_split(ls, sep, 3);
    let t3 = ls.take(3);
    assert(t3.drop_last() =~= ls.take(2));
    assert(ls.take(2).drop_last() =~= ls.take(1));
    assert(seq_join(ls.take(1), sep) == ls[0]);
    assert(seq_join(ls.take(2), sep) == ls[0] + sep + ls[1]);
    assert(seq_join(t3, sep) == ls[0] + sep + ls[1] + sep + ls[2]);
    crate::text::lemma_join_starts(ls.skip(3), sep);
    let text = seq_join(ls, sep);
    if n == 0 {
        let tail = sep + ls.last();
        assert(text == seq_join(ls.drop_last(), sep) + sep + ls.last());
        assert(text.subrange(text.len() - tail.len(), text.len() as int) =~= tail);
    } else {
        let k = ls.len() - n - 1;
        crate::text::lemma_join_split(ls, sep, k);
        crate::text::lemma_join_starts(ls.skip(k), sep);
    }
}

fn render_finding(f: &SkillRiskFinding) -> (r: String)
    ensures
        r@ == finding_line(finding_view(*f)),
{
    let mut s = owned("  [");
    push_str(&mut s, f.severity);
    push_str(&mut s, "] ");
    push_str(&mut s, f.file.as_str());
    push_str(&mut s, ":");
    let n = usize_to_string(f.line);
    push_str(&mut s, n.as_str());
    push_str(&mut s, " pattern='");
    push_str(&mut s, f.pattern);
    push_str(&mut s, "' ");
    push_str(&mut s, f.reason);
    s
}

/// The analysis report as text, one item per line.
pub fn render_skill_analysis(report: &SkillAnalysisReport) -> (r: String)
    ensures
        r@ == seq_join(analysis_lines(*report), "\n"@),
{
    let mut lines: Vec<String> = Vec::new();
    let mut a = owned("Skill source: ");
    push_str(&mut a, report.source.as_str());
    lines.push(a);
    let mut b = owned("Skill name: ");
    push_str(&mut b, report.skill_name.as_str());
    lines.push(b);
    let mut c = owned("Description: ");
    push_str(&mut c, report.description.as_str());
    lines.push(c);
    match &report.permissions {
        Some(perms) => {
            lines.push(owned("Permissions declared in SKILL.md: yes"));
            let mut more = render_permissions_lines(perms);
            lines.append(&mut more);
        },
        None => {
            lines.push(owned("Permissions declared in SKILL.md: no"));
            lines.push(owned("Effective behavior: default deny-first sandbox policy will be used."));
        },
    }
    let ghost before = views(lines@);
    let fs = &report.findings;
    if fs.len() == 0 {
        lines.push(owned("Risk scan: no obvious unsafe patterns found."));
    } else {
        let mut h = owned("Risk scan findings (");
        let n = usize_to_string(fs.len());
        push_str(&mut h, n.as_str());
        push_str(&mut h, "):");
        lines.push(h);
        let ghost mid = views(lines@);
        for i in 0..fs.len()
            invariant
                fs == &report.findings,
                views(lines@) == mid + finding_views(fs@).take(i as int).map_values(
                    |f: FindingView| finding_line(f),
                ),
        {
            let ghost prev = views(lines@);
            lines.push(render_finding(&fs[i]));
            assert(finding_views(fs@).take(i + 1).map_values(|f: FindingView| finding_line(f))
                =~= finding_views(fs@).take(i as int).map_values(|f: FindingView| finding_line(f)).push(
                finding_line(finding_view(fs@[i as int])),
            ));
            assert(views(lines@) =~= prev.push(finding_line(finding_view(fs@[i as int]))));
        }
        assert(finding_views(fs@).take(fs@.len() as int) =~= finding_views(fs@));
    }
    assert(views(lines@) =~= analysis_lines(*report));
    join_strings(&lines, "\n")
}

// ───────────────────────────── Installing ─────────────────────────────

/// Whether the install may go on: `Ok(high_risk)`, or the refusal of a
/// high-risk skill that was not confirmed.
pub fn install_gate(report: &SkillAnalysisReport, allow_high_risk: bool) -> (r: Result<bool, String>)
    ensures
        match r {
            Ok(h) => h == any_high_risk(report.findings@) && (h ==> allow_high_risk),
            Err(m) => any_high_risk(report.findings@) && !allow_high_risk && m@
                == "high-risk patterns detected; confirmation required before install"@,
        },
{
    let high_risk = has_high_risk_findings(report);
    if high_risk && !allow_high_risk {
        return Err(owned("high-risk patterns detected; confirmation required before install"));
    }
    Ok(high_risk)
}

/// Whether an installed copy holds the same content: its recorded hash, trimmed,
/// equals the hash of the source.
pub fn same_installed_content(installed_hash: &str, source_hash: &str) -> (r: bool)
    ensures
        r == (trim(installed_hash@) == source_hash@),
{
    let t = trim_str(installed_hash);
    str_eq(t.as_str(), source_hash)
}

/// The YAML text between the opening `---` (after leading whitespace) and the
/// next `---` of a SKILL.md.
pub open spec fn frontmatter_of(raw: Seq<char>) -> Result<Seq<char>, Seq<char>> {
    let t = trim_start(raw);
    if !has_prefix(t, "---"@) {
        Err("SKILL.md must start with YAML frontmatter (---)"@)
    } else {
        let after = t.skip(3);
        if exists|i: int| 0 <= i && occurs_at(after, "---"@, i) {
            let end = choose|i: int| first_occurrence(after, "---"@, i);
            Ok(after.take(end))
        } else {
            Err("no closing --- for frontmatter"@)
        }
    }
}

/// The frontmatter text of a SKILL.md, or why it has none.
pub fn frontmatter_block(raw: &str) -> (r: Result<String, String>)
    ensures
        match r {
            Ok(s) => frontmatter_of(raw@) == Ok::<Seq<char>, Seq<char>>(s@),
            Err(e) => frontmatter_of(raw@) == Err::<Seq<char>, Seq<char>>(e@),
        },
{
    let cs = chars_of(raw);
    let (a, _b) = trim_bounds(cs.as_slice());
    let t = slice_chars(cs.as_slice(), a, cs.len());
    let dashes = chars_of("---");
    proof {
        reveal_strlit("---");
    }
    if !starts_with_chars(t.as_slice(), dashes.as_slice()) {
        return Err(owned("SKILL.md must start with YAML frontmatter (---)"));
    }
    let after = slice_chars(t.as_slice(), 3, t.len());
    assert(after@ =~= t@.skip(3));
    match find_from(after.as_slice(), dashes.as_slice(), 0) {
        Some(end) => {
            let ghost w = choose|i: int| first_occurrence(after@, "---"@, i);
            proof {
                assert(first_occurrence(after@, "---"@, end as int));
                if w != end {
                    if w < end {
                        assert(!occurs_at(after@, "---"@, w));
                    } else {
                        assert(!occurs_at(after@, "---"@, end as int));
                    }
                }
            }
            let y = slice_chars(after.as_slice(), 0, end);
            assert(y@ =~= after@.take(end as int));
            Ok(string_from_chars(y.as_slice()))
        },
        None => Err(owned("no closing --- for frontmatter")),
    }
}

/// The single SKILL.md found in a downloaded archive, or why there is none.
pub fn single_skill_hit(hits: Vec<String>) -> (r: Result<String, String>)
    ensures
        hits@.len() == 0 ==> (r matches Err(m) && m@ == "downloaded source does not contain SKILL.md"@),
        hits@.len() > 1 ==> (r matches Err(m) && m@
            == "downloaded source contains multiple SKILL.md files; please provide a single-skill archive"@),
        hits@.len() == 1 ==> (r matches Ok(p) && p@ == hits@[0]@),
{
    if hits.len() == 0 {
        return Err(owned("downloaded source does not contain SKILL.md"));
    }
    if hits.len() > 1 {
        return Err(
            owned(
                "downloaded source contains multiple SKILL.md files; please provide a single-skill archive",
            ),
        );
    }
    Ok(copy_string(&hits[0]))
}

// ───────────────────────────── Downloads ─────────────────────────────

/// Largest download accepted, in bytes.
pub const MAX_DOWNLOAD_BYTES: usize = 20_971_520;

/// How a downloaded file is unpacked.
#[derive(Debug, Clone, Copy, PartialEq, Eq, Structural)]
pub enum ArchiveKind {
    Zip,
    TarGz,
    Tar,
    /// Not an archive: the file is the SKILL.md itself.
    SkillFile,
}

/// The kind of a download by the ending of its URL path, ignoring case.
pub open spec fn archive_kind_of(path: Seq<char>) -> ArchiveKind {
    let p = lower_text(path);
    if has_suffix(p, ".zip"@) {
        ArchiveKind::Zip
    } else if has_suffix(p, ".tar.gz"@) || has_suffix(p, ".tgz"@) {
        ArchiveKind::TarGz
    } else if has_suffix(p, ".tar"@) {
        ArchiveKind::Tar
    } else {
        ArchiveKind::SkillFile
    }
}

/// How to unpack a download with the given URL path.
pub fn archive_kind(url_path: &str) -> (r: ArchiveKind)
    ensures
        r == archive_kind_of(url_path@),
{
    let p = to_lowercase(url_path);
    let s = p.as_str();
    if str_ends_with(s, ".zip") {
        ArchiveKind::Zip
    } else if str_ends_with(s, ".tar.gz") || str_ends_with(s, ".tgz") {
        ArchiveKind::TarGz
    } else if str_ends_with(s, ".tar") {
        ArchiveKind::Tar
    } else {
        ArchiveKind::SkillFile
    }
}

/// A download source is remote when it is an `http://` or `https://` URL.
pub fn is_remote_source(source: &str) -> (r: bool)
    ensures
        r == (has_prefix(source@, "http://"@) || has_prefix(source@, "https://"@)),
{
    crate::text::str_starts_with(source, "http://") || crate::text::str_starts_with(source, "https://")
}

/// Refuses a URL scheme other than `http` and `https`.
pub fn check_scheme(scheme: &str) -> (r: Result<(), String>)
    ensures
        match r {
            Ok(()) => scheme@ == "http"@ || scheme@ == "https"@,
            Err(m) => !(scheme@ == "http"@ || scheme@ == "https"@) && m@ == "unsupported URL scheme: "@
                + scheme@,
        },
{
    if str_eq(scheme, "http") || str_eq(scheme, "https") {
        Ok(())
    } else {
        let mut m = owned("unsupported URL scheme: ");
        push_str(&mut m, scheme);
        Err(m)
    }
}

/// Refuses a response that is an HTML page (by its content type, ignoring
/// case).
pub fn check_not_html(content_type: &str) -> (r: Result<(), String>)
    ensures
        match r {
            Ok(()) => !contains_seq(lower_text(content_type@), "text/html"@),
            Err(m) => contains_seq(lower_text(content_type@), "text/html"@) && m@
                == "URL returned an HTML page instead of a downloadable skill. If this is a GitHub repository, use the raw URL or a .zip/.tar.gz archive link instead.\nExample: https://github.com/user/repo/archive/refs/heads/main.tar.gz"@,
        },
{
    let lower = to_lowercase(content_type);
    if str_contains(lower.as_str(), "text/html") {
        Err(
            owned(
                "URL returned an HTML page instead of a downloadable skill. If this is a GitHub repository, use the raw URL or a .zip/.tar.gz archive link instead.\nExample: https://github.com/user/repo/archive/refs/heads/main.tar.gz",
            ),
        )
    } else {
        Ok(())
    }
}

/// Refuses a download larger than `MAX_DOWNLOAD_BYTES`.
pub fn check_download_size(len: u64) -> (r: Result<(), String>)
    ensures
        match r {
            Ok(()) => len <= MAX_DOWNLOAD_BYTES,
            Err(m) => len > MAX_DOWNLOAD_BYTES && m@ == "remote file too large: "@ + decimal(
                len as nat,
            ) + " bytes (limit 20971520)"@,
        },
{
    if len > 20_971_520 {
        let mut m = owned("remote file too large: ");
        let n = crate::text::u64_to_string(len);
        push_str(&mut m, n.as_str());
        push_str(&mut m, " bytes (limit 20971520)");
        Err(m)
    } else {
        Ok(())
    }
}

// ───────────────────────────── Remote targets ─────────────────────────────

/// An IP address: IPv4 octets, or the 128 bits of an IPv6 address.
#[derive(Debug, Clone, Copy, PartialEq, Eq, Structural)]
pub enum IpAddress {
    V4(u8, u8, u8, u8),
    V6(u128),
}

/// Addresses a skill may not be downloaded from: unspecified, loopback,
/// private and link-local IPv4 addresses, and the IPv6 loopback.
pub open spec fn blocked_ip(ip: IpAddress) -> bool {
    match ip {
        IpAddress::V4(a, b, c, d) => (a == 0 && b == 0 && c == 0 && d == 0) || a == 127 || a == 10
            || (a == 172 && 16 <= b <= 31) || (a == 192 && b == 168) || (a == 169 && b == 254),
        IpAddress::V6(bits) => bits == 1,
    }
}

/// Whether an address is blocked as a download source.
pub fn is_blocked_remote_ip(ip: IpAddress) -> (r: bool)
    ensures
        r == blocked_ip(ip),
{
    match ip {
        IpAddress::V4(a, b, c, d) => {
            if a == 0 && b == 0 && c == 0 && d == 0 {
                return true;
            }
            a == 127 || a == 10 || (a == 172 && 16 <= b && b <= 31) || (a == 192 && b == 168) || (
            a == 169 && b == 254)
        },
        IpAddress::V6(bits) => bits == 1,
    }
}

/// The dotted notation of an IPv4 address.
pub open spec fn dotted(a: u8, b: u8, c: u8, d: u8) -> Seq<char> {
    decimal(a as nat) + "."@ + decimal(b as nat) + "."@ + decimal(c as nat) + "."@ + decimal(
        d as nat,
    )
}

/// The remote-host check: the host without its IPv6 brackets, refused when it
/// is `localhost` (in any ASCII case) or the URL has no port.
pub open spec fn remote_host_check(host: Seq<char>, port: Option<u16>) -> Result<Seq<char>, Seq<char>> {
    let t = crate::text::trim_chars_spec(host, '[', ']');
    if crate::text::ascii_lower(t) == "localhost"@ {
        Err("blocked remote URL target: localhost"@)
    } else if port is None {
        Err("URL missing port for scheme"@)
    } else {
        Ok(t)
    }
}

/// A host with its brackets removed, and the check that it is no `localhost` and
/// the URL has a port.
pub fn check_remote_host(host: &str, port: Option<u16>) -> (r: Result<String, String>)
    ensures
        match r {
            Ok(h) => remote_host_check(host@, port) == Ok::<Seq<char>, Seq<char>>(h@),
            Err(m) => remote_host_check(host@, port) == Err::<Seq<char>, Seq<char>>(m@),
        },
        match r {
            Ok(h) => h@ == crate::text::trim_chars_spec(host@, '[', ']') && !(crate::text::ascii_lower(h@)
                == "localhost"@) && port.is_some(),
            Err(m) => (crate::text::ascii_lower(crate::text::trim_chars_spec(host@, '[', ']'))
                == "localhost"@ && m@ == "blocked remote URL target: localhost"@) || (
            !(crate::text::ascii_lower(crate::text::trim_chars_spec(host@, '[', ']')) == "localhost"@)
                && port is None && m@ == "URL missing port for scheme"@),
        },
{
    let cs = chars_of(host);
    let trimmed = crate::text::trim_char_pair(cs.as_slice(), '[', ']');
    let lower = crate::text::ascii_lowercase_chars(trimmed.as_slice());
    let lower_s = string_from_chars(lower.as_slice());
    if str_eq(lower_s.as_str(), "localhost") {
        return Err(owned("blocked remote URL target: localhost"));
    }
    if port.is_none() {
        return Err(owned("URL missing port for scheme"));
    }
    Ok(string_from_chars(trimmed.as_slice()))
}

fn ip_text(ip: IpAddress) -> (r: String)
    ensures
        match ip {
            IpAddress::V4(a, b, c, d) => r@ == dotted(a, b, c, d),
            IpAddress::V6(bits) => bits == 1 ==> r@ == "::1"@,
        },
{
    match ip {
        IpAddress::V4(a, b, c, d) => {
            let mut s = usize_to_string(a as usize);
            push_str(&mut s, ".");
            let t = usize_to_string(b as usize);
            push_str(&mut s, t.as_str());
            push_str(&mut s, ".");
            let t = usize_to_string(c as usize);
            push_str(&mut s, t.as_str());
            push_str(&mut s, ".");
            let t = usize_to_string(d as usize);
            push_str(&mut s, t.as_str());
            s
        },
        IpAddress::V6(_) => owned("::1"),
    }
}


/// The message refusing a blocked address (only the IPv6 loopback is blocked
/// among IPv6 addresses).
pub open spec fn blocked_message(host: Seq<char>, ip: IpAddress) -> Seq<char> {
    "blocked remote URL target: "@ + host + " resolved to "@ + match ip {
        IpAddress::V4(a, b, c, d) => dotted(a, b, c, d),
        IpAddress::V6(_) => "::1"@,
    }
}

/// The check of the addresses a host resolved to: it must resolve, and to no
/// blocked address (the first blocked one is named).
pub fn check_resolved_ips(host: &str, ips: &Vec<IpAddress>) -> (r: Result<(), String>)
    ensures
        match r {
            Ok(()) => ips@.len() > 0 && forall|i: int|
                0 <= i < ips@.len() ==> !blocked_ip(#[trigger] ips@[i]),
            Err(m) => if ips@.len() == 0 {
                m@ == "failed to resolve host '"@ + host@ + "'"@
            } else {
                exists|i: int|
                    0 <= i < ips@.len() && blocked_ip(#[trigger] ips@[i]) && (forall|j: int|
                        0 <= j < i ==> !blocked_ip(#[trigger] ips@[j])) && m@ == blocked_message(
                        host@,
                        ips@[i],
                    )
            },
        },
{
    if ips.len() == 0 {
        let mut m = owned("failed to resolve host '");
        push_str(&mut m, host);
        push_str(&mut m, "'");
        return Err(m);
    }
    for i in 0..ips.len()
        invariant
            forall|j: int| 0 <= j < i ==> !blocked_ip(#[trigger] ips@[j]),
    {
        if is_blocked_remote_ip(ips[i]) {
            let mut m = owned("blocked remote URL target: ");
            push_str(&mut m, host);
            push_str(&mut m, " resolved to ");
            let t = ip_text(ips[i]);
            push_str(&mut m, t.as_str());
            assert(m@ == blocked_message(host@, ips@[i as int]));
            return Err(m);
        }
    }
    Ok(())
}

// ───────────────────────────── The skill tool ─────────────────────────────

/// A loaded skill: its name and its full SKILL.md text.
pub struct SkillDoc {
    pub name: String,
    pub content: String,
}

/// The first skill with this name.
pub open spec fn skill_doc_named(skills: Seq<SkillDoc>, name: Seq<char>) -> Option<SkillDoc>
    decreases skills.len(),
{
    if skills.len() == 0 {
        None
    } else if skills[0].name@ == name {
        Some(skills[0])
    } else {
        skill_doc_named(skills.drop_first(), name)
    }
}

/// The names of the skills, in order.
pub open spec fn skill_doc_names(skills: Seq<SkillDoc>) -> Seq<Seq<char>> {
    skills.map_values(|d: SkillDoc| d.name@)
}

/// What the `skill` tool answers for a requested name (absent when the call
/// gave none): the skill's text; an error for an empty name or an unknown
/// skill, the latter listing the available ones.
pub open spec fn skill_tool_answer(name: Option<Seq<char>>, skills: Seq<SkillDoc>) -> (Seq<char>, bool) {
    let n = trim(
        match name {
            Some(x) => x,
            None => Seq::empty(),
        },
    );
    if n.len() == 0 {
        ("Error: skill name is required."@, true)
    } else {
        match skill_doc_named(skills, n) {
            Some(d) => (d.content@, false),
            None => (
                "Skill '"@ + n + "' not found. "@ + if skills.len() == 0 {
                    "No skills are currently available."@
                } else {
                    "Available skills: "@ + seq_join(skill_doc_names(skills), ", "@)
                },
                true,
            ),
        }
    }
}

/// Answers a `skill` tool call from the available skills.
pub fn skill_tool_output(name: Option<&str>, skills: &Vec<SkillDoc>) -> (r: crate::tool::ToolOutput)
    ensures
        (r.content@, r.is_error) == skill_tool_answer(
            match name {
                Some(x) => Some(x@),
                None => None,
            },
            skills@,
        ),
{
    let raw = match name {
        Some(x) => x,
        None => {
            assert(trim(Seq::<char>::empty()) =~= Seq::<char>::empty());
            return crate::tool::ToolOutput { content: owned("Error: skill name is required."), is_error: true };
        },
    };
    let n = trim_str(raw);
    if char_count(n.as_str()) == 0 {
        return crate::tool::ToolOutput { content: owned("Error: skill name is required."), is_error: true };
    }
    let len = skills.len();
    assert(skills@.skip(0) =~= skills@);
    let mut i: usize = 0;
    while i < len
        invariant
            len == skills@.len(),
            i <= len,
            skill_doc_named(skills@, n@) == skill_doc_named(skills@.skip(i as int), n@),
            n@ == trim(raw@),
            n@.len() > 0,
            name == Some(raw),
        decreases len - i,
    {
        let ghost rest = skills@.skip(i as int);
        assert(rest[0] == skills@[i as int]);
        assert(rest.drop_first() =~= skills@.skip(i + 1));
        if str_eq(skills[i].name.as_str(), n.as_str()) {
            assert(skill_doc_named(rest, n@) == Some(skills@[i as int]));
            let c = copy_string(&skills[i].content);
            assert(skill_tool_answer(Some(raw@), skills@) == (c@, false));
            return crate::tool::ToolOutput { content: c, is_error: false };
        }
        i = i + 1;
    }
    assert(skills@.skip(len as int) =~= Seq::<SkillDoc>::empty());
    let mut content = owned("Skill '");
    push_str(&mut content, n.as_str());
    push_str(&mut content, "' not found. ");
    if len == 0 {
        push_str(&mut content, "No skills are currently available.");
    } else {
        let mut names: Vec<String> = Vec::new();
        for k in 0..len
            invariant
                len == skills@.len(),
                views(names@) == skill_doc_names(skills@).take(k as int),
        {
            let ghost before = views(names@);
            names.push(copy_string(&skills[k].name));
            assert(skill_doc_names(skills@).take(k + 1) =~= skill_doc_names(skills@).take(k as int).push(
                skills@[k as int].name@,
            ));
            assert(views(names@) =~= before.push(skills@[k as int].name@));
        }
        assert(skill_doc_names(skills@).take(len as int) =~= skill_doc_names(skills@));
        push_str(&mut content, "Available skills: ");
        let joined = join_strings(&names, ", ");
        push_str(&mut content, joined.as_str());
    }
    crate::tool::ToolOutput { content, is_error: true }
}

/// Tool `skill`: the full instructions of an available skill.
pub struct SkillTool {
    /// Where the skills are installed.
    pub skills_root: String,
}

impl SkillTool {
    pub fn new(skills_root: String) -> (r: Self)
        ensures
            r.skills_root == skills_root,
    {
        SkillTool { skills_root }
    }

    /// Answers a call naming `name` from the skills found under the root.
    pub fn execute(&self, name: Option<&str>, skills: &Vec<SkillDoc>) -> (r: crate::tool::ToolOutput)
        ensures
            (r.content@, r.is_error) == skill_tool_answer(
                match name {
                    Some(x) => Some(x@),
                    None => None,
                },
                skills@,
            ),
    {
        skill_tool_output(name, skills)
    }
}

// ───────────────────────────── Download target ─────────────────────────────

/// Where a skill is downloaded from, once its URL has passed the checks.
pub struct SkillDownloadTarget {
    /// The host as the URL writes it.
    pub host: String,
    /// The host without IPv6 brackets, to resolve.
    pub resolve_host: String,
    pub port: u16,
    /// The URL's path, which tells how the download is unpacked.
    pub path: String,
    pub kind: ArchiveKind,
}

/// Abstract value of a download target.
pub open spec fn target_view(t: SkillDownloadTarget) -> (Seq<char>, Seq<char>, u16, Seq<char>, ArchiveKind) {
    (t.host@, t.resolve_host@, t.port, t.path@, t.kind)
}

/// The target of a skill URL given what the URL parser read in it: the parse
/// error, an unsupported scheme, a missing host and the remote-host check
/// refuse it; otherwise its host, port, path and archive kind.
pub open spec fn skill_download_target(
    url: Seq<char>,
    parts: Result<(Seq<char>, Option<Seq<char>>, Option<u16>, Seq<char>), Seq<char>>,
) -> Result<(Seq<char>, Seq<char>, u16, Seq<char>, ArchiveKind), Seq<char>> {
    match parts {
        Err(e) => Err("invalid URL '"@ + url + "': "@ + e),
        Ok((scheme, host, port, path)) => if !(scheme == "http"@ || scheme == "https"@) {
            Err("unsupported URL scheme: "@ + scheme)
        } else {
            match host {
                None => Err("URL must include a host"@),
                Some(h) => match remote_host_check(h, port) {
                    Err(m) => Err(m),
                    Ok(t) => Ok((h, t, port.unwrap(), path, archive_kind_of(path))),
                },
            }
        },
    }
}

/// Checks what the URL parser read in a skill URL and gives the download
/// target.
pub fn check_skill_url_parts(
    url: &str,
    parts: Result<(String, Option<String>, Option<u16>, String), String>,
) -> (r: Result<SkillDownloadTarget, String>)
    ensures
        match r {
            Ok(t) => skill_download_target(
                url@,
                match parts {
                    Ok((s, h, p, path)) => Ok((s@, opt_text(h), p, path@)),
                    Err(e) => Err(e@),
                },
            ) == Ok::<(Seq<char>, Seq<char>, u16, Seq<char>, ArchiveKind), Seq<char>>(target_view(t)),
            Err(m) => skill_download_target(
                url@,
                match parts {
                    Ok((s, h, p, path)) => Ok((s@, opt_text(h), p, path@)),
                    Err(e) => Err(e@),
                },
            ) == Err::<(Seq<char>, Seq<char>, u16, Seq<char>, ArchiveKind), Seq<char>>(m@),
        },
{
    match parts {
        Err(e) => {
            let mut m = owned("invalid URL '");
            push_str(&mut m, url);
            push_str(&mut m, "': ");
            push_str(&mut m, e.as_str());
            Err(m)
        },
        Ok((scheme, host, port, path)) => {
            match check_scheme(scheme.as_str()) {
                Err(m) => return Err(m),
                Ok(()) => {},
            }
            let h = match host {
                None => return Err(owned("URL must include a host")),
                Some(h) => h,
            };
            let t = match check_remote_host(h.as_str(), port) {
                Err(m) => return Err(m),
                Ok(t) => t,
            };
            let p = match port {
                Some(p) => p,
                None => return Err(owned("URL missing port for scheme")),
            };
            let kind = archive_kind(path.as_str());
            Ok(SkillDownloadTarget { host: h, resolve_host: t, port: p, path, kind })
        },
    }
}

/// Reads a skill URL with the URL parser and checks it: the download target,
/// or why the URL is refused.
pub fn plan_skill_download(url: &str) -> (r: Result<SkillDownloadTarget, String>)
    ensures
        match r {
            Ok(t) => skill_download_target(url@, url_parts(url@)) == Ok::<
                (Seq<char>, Seq<char>, u16, Seq<char>, ArchiveKind),
                Seq<char>,
            >(target_view(t)),
            Err(m) => skill_download_target(url@, url_parts(url@)) == Err::<
                (Seq<char>, Seq<char>, u16, Seq<char>, ArchiveKind),
                Seq<char>,
            >(m@),
        },
{
    let parts = parse_url(url);
    check_skill_url_parts(url, parts)
}

} // verus!
