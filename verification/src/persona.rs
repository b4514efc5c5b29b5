//! An agent's persona: the workspace context files that define its identity,
//! and the system prompt assembled from them.
use vstd::prelude::*;
use crate::text::{has_prefix, utf8_len, trim, trim_end, lines, seq_join, views, decimal, owned, copy_string, push_str, usize_to_string, chars_of, string_from_chars, slice_chars, trim_end_chars, trim_chars, lines_chars, join_strings, byte_len, char_count, char_views, lemma_utf8_len_le_4len};

verus! {

/// Most characters kept of one context file.
pub const MAX_CONTEXT_FILE_CHARS: usize = 20_000;

/// Most bytes spent on all project context files together.
pub const TOTAL_MAX_CONTEXT_CHARS: usize = 150_000;

/// The workspace context files of an agent.
pub struct Persona {
    pub agent_id: String,
    pub name: String,
    pub emoji: Option<String>,
    /// AGENTS.md: operating instructions.
    pub agents_md: String,
    /// SOUL.md: personality and boundaries.
    pub soul_md: String,
    /// USER.md: about the human user.
    pub user_md: String,
    /// IDENTITY.md: the agent's own identity.
    pub identity_md: String,
    /// TOOLS.md: local environment notes.
    pub tools_md: String,
    /// HEARTBEAT.md: periodic task checklist.
    pub heartbeat_md: String,
    /// BOOTSTRAP.md: first-run onboarding.
    pub bootstrap_md: String,
    /// MEMORY.md: long-term knowledge.
    pub memory_md: String,
    /// About the other agents.
    pub peers_context: String,
    /// Who is in the current chat.
    pub group_members_context: String,
}

// ───────────────────────────── Character budgets ─────────────────────────────

/// Characters kept from the start of a truncated file (70% of the limit).
pub open spec fn head_chars(max: nat) -> nat {
    max * 7 / 10
}

/// Characters kept from the end of a truncated file (20% of the limit).
pub open spec fn tail_chars(max: nat) -> nat {
    max * 2 / 10
}

/// A context file cut to `max` characters: trailing whitespace is dropped; a
/// longer file keeps its head and tail around a note naming the file.
pub open spec fn truncated_file(content: Seq<char>, name: Seq<char>, max: nat) -> Seq<char> {
    let t = trim_end(content);
    let n = t.len();
    if n <= max {
        t
    } else {
        let h = head_chars(max);
        let tl = tail_chars(max);
        t.take(h as int) + "\n\n[\u{2026}truncated, read "@ + name + " for full content\u{2026}]\n\u{2026}(truncated "@
            + name + ": kept "@ + decimal(h) + "+"@ + decimal(tl) + " chars of "@ + decimal(n)
            + ")\u{2026}\n\n"@ + t.skip(n - tl)
    }
}

/// Content cut to `budget` characters, the last of them an ellipsis.
pub open spec fn clamped(content: Seq<char>, budget: nat) -> Seq<char> {
    if content.len() <= budget {
        content
    } else if budget == 0 {
        Seq::empty()
    } else {
        content.take(budget - 1) + "\u{2026}"@
    }
}

/// Clamped content never has more characters than the budget, and content
/// within the budget is kept as it is.
pub proof fn law_clamp_fits_budget(content: Seq<char>, budget: nat)
    ensures
        clamped(content, budget).len() <= budget,
        content.len() <= budget ==> clamped(content, budget) == content,
{
    reveal_strlit("\u{2026}");
}

/// The byte offset of character `target_chars`, or the byte length when the
/// text is shorter.
pub fn char_boundary_at(s: &str, target_chars: usize) -> (b: usize)
    ensures
        b == utf8_len(s@.take(if target_chars <= s@.len() { target_chars as int } else { s@.len() as int })),
{
    let cs = chars_of(s);
    let k = if target_chars <= cs.len() { target_chars } else { cs.len() };
    let head = slice_chars(cs.as_slice(), 0, k);
    let t = string_from_chars(head.as_slice());
    assert(head@ =~= s@.take(k as int));
    byte_len(t.as_str())
}

/// The byte offset of the character `target_chars` from the end; 0 when the text
/// has no more characters than that.
pub fn char_boundary_from_end(s: &str, target_chars: usize) -> (b: usize)
    ensures
        b == (if target_chars >= s@.len() {
            0
        } else {
            utf8_len(s@.take(s@.len() - target_chars))
        }),
{
    let total = char_count(s);
    if target_chars >= total {
        return 0;
    }
    char_boundary_at(s, total - target_chars)
}

/// Cuts a context file to `max_chars` characters, keeping 70% from the head and
/// 20% from the tail around a truncation note.
pub fn truncate_context_file(content: &str, name: &str, max_chars: usize) -> (r: String)
    ensures
        r@ == truncated_file(content@, name@, max_chars as nat),
{
    let all = chars_of(content);
    let t = trim_end_chars(all.as_slice());
    let char_count = t.len();
    if char_count <= max_chars {
        return string_from_chars(t.as_slice());
    }
    let head_n: usize = ((max_chars as u128) * 7 / 10) as usize;
    let tail_n: usize = ((max_chars as u128) * 2 / 10) as usize;
    let head = slice_chars(t.as_slice(), 0, head_n);
    let tail = slice_chars(t.as_slice(), char_count - tail_n, char_count);
    let mut r = string_from_chars(head.as_slice());
    push_str(&mut r, "\n\n[\u{2026}truncated, read ");
    push_str(&mut r, name);
    push_str(&mut r, " for full content\u{2026}]\n\u{2026}(truncated ");
    push_str(&mut r, name);
    push_str(&mut r, ": kept ");
    let hs = usize_to_string(head_n);
    push_str(&mut r, hs.as_str());
    push_str(&mut r, "+");
    let ts = usize_to_string(tail_n);
    push_str(&mut r, ts.as_str());
    push_str(&mut r, " chars of ");
    let ns = usize_to_string(char_count);
    push_str(&mut r, ns.as_str());
    push_str(&mut r, ")\u{2026}\n\n");
    let tail_s = string_from_chars(tail.as_slice());
    push_str(&mut r, tail_s.as_str());
    assert(head@ =~= t@.take(head_n as int));
    assert(tail@ =~= t@.skip(char_count - tail_n));
    r
}

/// Cuts content to `budget` characters, ending in an ellipsis when cut.
pub fn clamp_to_budget(content: &str, budget: usize) -> (r: String)
    ensures
        r@ == clamped(content@, budget as nat),
{
    let cs = chars_of(content);
    if cs.len() <= budget {
        return owned(content);
    }
    if budget == 0 {
        return String::new();
    }
    let head = slice_chars(cs.as_slice(), 0, budget - 1);
    let mut r = string_from_chars(head.as_slice());
    push_str(&mut r, "\u{2026}");
    assert(head@ =~= content@.take(budget - 1));
    r
}

// ───────────────────────────── System prompt ─────────────────────────────

/// A project context file as loaded: empty files are left out.
pub open spec fn file_entry(name: Seq<char>, content: Seq<char>) -> Seq<(Seq<char>, Seq<char>)> {
    if content.len() == 0 {
        Seq::empty()
    } else {
        seq![(name, truncated_file(content, name, MAX_CONTEXT_FILE_CHARS as nat))]
    }
}

/// The project context files in prompt order: SOUL, TOOLS, IDENTITY, USER, and,
/// outside minimal mode, HEARTBEAT, BOOTSTRAP and MEMORY.
pub open spec fn context_files(p: Persona, minimal: bool) -> Seq<(Seq<char>, Seq<char>)> {
    file_entry("SOUL.md"@, p.soul_md@) + file_entry("TOOLS.md"@, p.tools_md@) + file_entry(
        "IDENTITY.md"@,
        p.identity_md@,
    ) + file_entry("USER.md"@, p.user_md@) + if minimal {
        Seq::empty()
    } else {
        file_entry("HEARTBEAT.md"@, p.heartbeat_md@) + file_entry("BOOTSTRAP.md"@, p.bootstrap_md@)
            + file_entry("MEMORY.md"@, p.memory_md@)
    }
}

/// The section of one context file, given the bytes already spent; the spent
/// bytes after it.
pub open spec fn file_section(name: Seq<char>, content: Seq<char>, spent: nat) -> (Seq<char>, nat) {
    let remaining = TOTAL_MAX_CONTEXT_CHARS - spent;
    if remaining <= 0 {
        ("\n## "@ + name + "\n\n[\u{2026}skipped, total context limit reached\u{2026}]"@, spent)
    } else {
        let c = if utf8_len(content) > remaining {
            clamped(content, remaining as nat)
        } else {
            content
        };
        ("\n## "@ + name + "\n\n"@ + c, spent + utf8_len(c))
    }
}

/// Sections of the context files, spending the shared byte budget in order.
pub open spec fn file_sections(files: Seq<(Seq<char>, Seq<char>)>, spent: nat) -> Seq<Seq<char>>
    decreases files.len(),
{
    if files.len() == 0 {
        Seq::empty()
    } else {
        let s = file_section(files[0].0, files[0].1, spent);
        seq![s.0] + file_sections(files.skip(1), s.1)
    }
}

/// The heading of the project context.
pub open spec fn project_heading() -> Seq<char> {
    "\n# Project Context\n\nThe following project context files have been loaded:"@
}

/// The instruction to embody SOUL.md.
pub open spec fn embody_instruction() -> Seq<char> {
    "If SOUL.md is present, embody its persona and tone. Avoid stiff, generic replies; follow its guidance unless higher-priority instructions override it."@
}

/// The project context: nothing without context files; otherwise its
/// heading, the instruction to embody SOUL.md when there is one, and one
/// section per file.
pub open spec fn project_section(p: Persona, minimal: bool) -> Seq<Seq<char>> {
    let files = context_files(p, minimal);
    if files.len() == 0 {
        Seq::empty()
    } else {
        seq![project_heading()] + (if p.soul_md@.len() > 0 {
            seq![embody_instruction()]
        } else {
            Seq::empty()
        }) + file_sections(files, 0)
    }
}

/// The parts of the system prompt, in order.
pub open spec fn prompt_parts(p: Persona, minimal: bool) -> Seq<Seq<char>> {
    let agents = if p.agents_md@.len() == 0 {
        Seq::empty()
    } else {
        seq![truncated_file(p.agents_md@, "AGENTS.md"@, MAX_CONTEXT_FILE_CHARS as nat)]
    };
    let project = project_section(p, minimal);
    let peers = if p.peers_context@.len() == 0 {
        Seq::empty()
    } else {
        seq!["\n"@ + p.peers_context@]
    };
    let group = if p.group_members_context@.len() == 0 {
        Seq::empty()
    } else {
        seq!["\n"@ + p.group_members_context@]
    };
    agents + project + peers + group
}

/// The minimal prompt leaves out only the heartbeat, bootstrap and memory
/// files: a persona without them gets the same prompt in both modes.
pub proof fn law_minimal_prompt_omits_only_optional_files(p: Persona)
    requires
        p.heartbeat_md@.len() == 0,
        p.bootstrap_md@.len() == 0,
        p.memory_md@.len() == 0,
    ensures
        assembled_prompt(p, true) == assembled_prompt(p, false),
{
    assert(context_files(p, true) =~= context_files(p, false));
    assert(prompt_parts(p, true) =~= prompt_parts(p, false));
}

/// A persona with a SOUL.md is told to embody it, in both modes: the project
/// context then holds the instruction right after its heading.
pub proof fn law_soul_is_embodied(p: Persona, minimal: bool)
    requires
        p.soul_md@.len() > 0,
    ensures
        prompt_parts(p, minimal).contains(
            "If SOUL.md is present, embody its persona and tone. Avoid stiff, generic replies; follow its guidance unless higher-priority instructions override it."@,
        ),
{
    let parts = prompt_parts(p, minimal);
    let agents: Seq<Seq<char>> = if p.agents_md@.len() == 0 {
        Seq::empty()
    } else {
        seq![truncated_file(p.agents_md@, "AGENTS.md"@, MAX_CONTEXT_FILE_CHARS as nat)]
    };
    assert(context_files(p, minimal).len() > 0);
    assert(parts[agents.len() as int + 1] == "If SOUL.md is present, embody its persona and tone. Avoid stiff, generic replies; follow its guidance unless higher-priority instructions override it."@);
}

proof fn lemma_file_sections_headed(files: Seq<(Seq<char>, Seq<char>)>, spent: nat)
    ensures
        file_sections(files, spent).len() == files.len(),
        forall|k: int|
            0 <= k < files.len() ==> has_prefix(#[trigger] file_sections(files, spent)[k], "\n## "@ + files[k].0),
    decreases files.len(),
{
    if files.len() > 0 {
        let sec = file_section(files[0].0, files[0].1, spent);
        lemma_file_sections_headed(files.skip(1), sec.1);
        let h = "\n## "@ + files[0].0;
        assert(sec.0.subrange(0, h.len() as int) =~= h);
        assert forall|k: int| 0 <= k < files.len() implies has_prefix(
            #[trigger] file_sections(files, spent)[k],
            "\n## "@ + files[k].0,
        ) by {
            if k > 0 {
                assert(file_sections(files, spent)[k] == file_sections(files.skip(1), sec.1)[k - 1]);
                assert(files.skip(1)[k - 1] == files[k]);
            }
        }
    }
}

/// The project context is there exactly when some context file has text (in
/// minimal mode the heartbeat, bootstrap and memory files do not count), and
/// then it starts with its heading; every file section is headed `## ` and the
/// file's name, and in minimal mode those names are only SOUL.md, TOOLS.md,
/// IDENTITY.md and USER.md.
pub proof fn law_project_context_present(p: Persona, minimal: bool)
    ensures
        project_section(p, minimal).len() > 0 <==> (p.soul_md@.len() > 0 || p.tools_md@.len() > 0
            || p.identity_md@.len() > 0 || p.user_md@.len() > 0 || (!minimal && (p.heartbeat_md@.len() > 0
            || p.bootstrap_md@.len() > 0 || p.memory_md@.len() > 0))),
        project_section(p, minimal).len() > 0 ==> project_section(p, minimal)[0] == project_heading(),
        forall|k: int|
            0 <= k < context_files(p, minimal).len() ==> has_prefix(
                #[trigger] file_sections(context_files(p, minimal), 0)[k],
                "\n## "@ + context_files(p, minimal)[k].0,
            ),
        minimal ==> forall|k: int|
            0 <= k < context_files(p, true).len() ==> {
                let n = #[trigger] context_files(p, true)[k].0;
                n == "SOUL.md"@ || n == "TOOLS.md"@ || n == "IDENTITY.md"@ || n == "USER.md"@
            },
{
    lemma_file_sections_headed(context_files(p, minimal), 0);
    let f = context_files(p, true);
    assert forall|k: int| 0 <= k < f.len() implies {
        let n = #[trigger] f[k].0;
        n == "SOUL.md"@ || n == "TOOLS.md"@ || n == "IDENTITY.md"@ || n == "USER.md"@
    } by {
        let a = file_entry("SOUL.md"@, p.soul_md@);
        let b = file_entry("TOOLS.md"@, p.tools_md@);
        let c = file_entry("IDENTITY.md"@, p.identity_md@);
        let d = file_entry("USER.md"@, p.user_md@);
        assert(f =~= a + b + c + d);
        if k < a.len() {
            assert(f[k] == a[k]);
        } else if k < a.len() + b.len() {
            assert(f[k] == b[k - a.len()]);
        } else if k < a.len() + b.len() + c.len() {
            assert(f[k] == c[k - a.len() - b.len()]);
        } else {
            assert(f[k] == d[k - a.len() - b.len() - c.len()]);
        }
    }
}

/// The instruction to embody SOUL.md is in the project context exactly when
/// there is a SOUL.md.
pub proof fn law_embody_exactly_with_soul(p: Persona, minimal: bool)
    ensures
        project_section(p, minimal).contains(embody_instruction()) <==> p.soul_md@.len() > 0,
{
    let files = context_files(p, minimal);
    let proj = project_section(p, minimal);
    reveal_strlit("If SOUL.md is present, embody its persona and tone. Avoid stiff, generic replies; follow its guidance unless higher-priority instructions override it.");
    reveal_strlit("\n# Project Context\n\nThe following project context files have been loaded:");
    reveal_strlit("\n## ");
    lemma_file_sections_headed(files, 0);
    if p.soul_md@.len() > 0 {
        assert(files.len() > 0);
        assert(proj[1] == embody_instruction());
    } else if proj.contains(embody_instruction()) {
        let k = choose|k: int| 0 <= k < proj.len() && proj[k] == embody_instruction();
        assert(embody_instruction()[0] == 'I');
        if k == 0 {
            assert(project_heading()[0] == '\n');
        } else {
            let sec = file_sections(files, 0)[k - 1];
            assert(proj[k] == sec);
            assert(has_prefix(sec, "\n## "@ + files[k - 1].0));
            assert(sec.subrange(0, 4)[0] == ("\n## "@ + files[k - 1].0)[0]);
            assert(sec[0] == '\n');
        }
    }
}

/// The system prompt: its parts joined by newlines.
pub open spec fn assembled_prompt(p: Persona, minimal: bool) -> Seq<char> {
    seq_join(prompt_parts(p, minimal), "\n"@)
}

/// Whether a heartbeat file holds a task: a line that is neither blank nor a
/// `#` comment once trimmed.
pub open spec fn has_tasks(heartbeat: Seq<char>) -> bool {
    exists|i: int|
        0 <= i < lines(heartbeat).len() && trim(#[trigger] lines(heartbeat)[i]).len() > 0 && trim(
            lines(heartbeat)[i],
        )[0] != '#'
}

fn push_file(
    names: &mut Vec<String>,
    contents: &mut Vec<String>,
    name: &str,
    content: &String,
)
    requires
        old(names)@.len() == old(contents)@.len(),
    ensures
        final(names)@.len() == final(contents)@.len(),
        views(final(names)@).zip_with(views(final(contents)@)) =~= views(old(names)@).zip_with(
            views(old(contents)@),
        ) + file_entry(name@, content@),
{
    if content.as_str().is_empty() {
        assert(views(names@).zip_with(views(contents@)) =~= views(old(names)@).zip_with(
            views(old(contents)@),
        ) + file_entry(name@, content@));
        return;
    }
    names.push(owned(name));
    contents.push(truncate_context_file(content.as_str(), name, MAX_CONTEXT_FILE_CHARS));
    assert(views(names@).zip_with(views(contents@)) =~= views(old(names)@).zip_with(
        views(old(contents)@),
    ) + file_entry(name@, content@));
}

/// A clamped text has at most `budget` characters.
proof fn lemma_clamped_len(content: Seq<char>, budget: nat)
    ensures
        clamped(content, budget).len() <= budget,
{
    reveal_strlit("\u{2026}");
}

/// The sections of the context files, spending the shared budget in order.
fn project_sections(names: &Vec<String>, contents: &Vec<String>) -> (r: Vec<String>)
    requires
        names@.len() == contents@.len(),
    ensures
        views(r@) == file_sections(views(names@).zip_with(views(contents@)), 0),
{
    let ghost files = views(names@).zip_with(views(contents@));
    let mut parts: Vec<String> = Vec::new();
    let mut total: usize = 0;
    let k = names.len();
    assert(files.skip(0) =~= files);
    for i in 0..k
        invariant
            k == names@.len(),
            k == contents@.len(),
            files == views(names@).zip_with(views(contents@)),
            total <= 600_000,
            views(parts@) + file_sections(files.skip(i as int), total as nat) =~= file_sections(
                files,
                0,
            ),
    {
        let ghost prev = views(parts@);
        let ghost rest = files.skip(i as int);
        let ghost old_total = total;
        assert(rest[0] == (names@[i as int]@, contents@[i as int]@));
        assert(rest.skip(1) =~= files.skip(i + 1));
        let ghost step = file_section(rest[0].0, rest[0].1, total as nat);
        let remaining = TOTAL_MAX_CONTEXT_CHARS.saturating_sub(total);
        if remaining == 0 {
            let mut sec = owned("\n## ");
            push_str(&mut sec, names[i].as_str());
            push_str(&mut sec, "\n\n[\u{2026}skipped, total context limit reached\u{2026}]");
            assert(sec@ == step.0);
            parts.push(sec);
        } else {
            let c = if byte_len(contents[i].as_str()) > remaining {
                clamp_to_budget(contents[i].as_str(), remaining)
            } else {
                copy_string(&contents[i])
            };
            proof {
                lemma_utf8_len_le_4len(c@);
                crate::text::lemma_utf8_len_ge_len(c@);
                lemma_clamped_len(contents[i as int]@, remaining as nat);
            }
            let used = byte_len(c.as_str());
            assert(used <= 4 * remaining);
            total = total + used;
            let mut sec = owned("\n## ");
            push_str(&mut sec, names[i].as_str());
            push_str(&mut sec, "\n\n");
            push_str(&mut sec, c.as_str());
            assert(sec@ == step.0);
            parts.push(sec);
        }
        proof {
            assert(total == step.1);
            assert(file_sections(rest, old_total as nat) == seq![step.0] + file_sections(
                rest.skip(1),
                step.1,
            ));
            assert(views(parts@) =~= prev.push(step.0));
            assert(views(parts@) + file_sections(files.skip(i + 1), total as nat) =~= prev
                + file_sections(rest, old_total as nat));
        }
    }
    assert(files.skip(k as int).len() == 0);
    parts
}

impl Persona {
    /// The full system prompt.
    pub fn assembled_system_prompt(&self) -> (r: String)
        ensures
            r@ == assembled_prompt(*self, false),
    {
        self.assembled_system_prompt_for_mode(false)
    }

    /// The system prompt for sub-agents: without HEARTBEAT, BOOTSTRAP and MEMORY.
    pub fn assembled_system_prompt_minimal(&self) -> (r: String)
        ensures
            r@ == assembled_prompt(*self, true),
    {
        self.assembled_system_prompt_for_mode(true)
    }

    /// The system prompt, minimal or full.
    #[verifier::rlimit(40)]
    pub fn assembled_system_prompt_for_mode(&self, minimal: bool) -> (r: String)
        ensures
            r@ == assembled_prompt(*self, minimal),
    {
        let mut parts: Vec<String> = Vec::new();
        if !self.agents_md.as_str().is_empty() {
            parts.push(
                truncate_context_file(self.agents_md.as_str(), "AGENTS.md", MAX_CONTEXT_FILE_CHARS),
            );
        }
        let (names, contents) = self.context_file_list(minimal);
        if names.len() > 0 {
            parts.push(
                owned(
                    "\n# Project Context\n\nThe following project context files have been loaded:",
                ),
            );
            if !self.soul_md.as_str().is_empty() {
                parts.push(
                    owned(
                        "If SOUL.md is present, embody its persona and tone. Avoid stiff, generic replies; follow its guidance unless higher-priority instructions override it.",
                    ),
                );
            }
            let mut sections = project_sections(&names, &contents);
            parts.append(&mut sections);
        }
        let ghost agents_part: Seq<Seq<char>> = if self.agents_md@.len() == 0 {
            Seq::empty()
        } else {
            seq![truncated_file(self.agents_md@, "AGENTS.md"@, MAX_CONTEXT_FILE_CHARS as nat)]
        };
        assert(views(parts@) =~= agents_part + project_section(*self, minimal));
        if !self.peers_context.as_str().is_empty() {
            let mut s = owned("\n");
            push_str(&mut s, self.peers_context.as_str());
            parts.push(s);
        }
        if !self.group_members_context.as_str().is_empty() {
            let mut s = owned("\n");
            push_str(&mut s, self.group_members_context.as_str());
            parts.push(s);
        }
        assert(views(parts@) =~= prompt_parts(*self, minimal));
        join_strings(&parts, "\n")
    }

    /// Names and contents of the project context files, in prompt order.
    fn context_file_list(&self, minimal: bool) -> (r: (Vec<String>, Vec<String>))
        ensures
            r.0@.len() == r.1@.len(),
            views(r.0@).zip_with(views(r.1@)) == context_files(*self, minimal),
    {
        let mut names: Vec<String> = Vec::new();
        let mut contents: Vec<String> = Vec::new();
        push_file(&mut names, &mut contents, "SOUL.md", &self.soul_md);
        push_file(&mut names, &mut contents, "TOOLS.md", &self.tools_md);
        push_file(&mut names, &mut contents, "IDENTITY.md", &self.identity_md);
        push_file(&mut names, &mut contents, "USER.md", &self.user_md);
        if !minimal {
            push_file(&mut names, &mut contents, "HEARTBEAT.md", &self.heartbeat_md);
            push_file(&mut names, &mut contents, "BOOTSTRAP.md", &self.bootstrap_md);
            push_file(&mut names, &mut contents, "MEMORY.md", &self.memory_md);
        }
        assert(views(names@).zip_with(views(contents@)) =~= context_files(*self, minimal));
        (names, contents)
    }

    /// The persona with the given peers context.
    pub fn with_peers_context(self, context: String) -> (p: Self)
        ensures
            p == (Persona { peers_context: context, ..self }),
    {
        let mut p = self;
        p.peers_context = context;
        p
    }

    /// The persona with the given group members context.
    pub fn with_group_members_context(self, context: String) -> (p: Self)
        ensures
            p == (Persona { group_members_context: context, ..self }),
    {
        let mut p = self;
        p.group_members_context = context;
        p
    }

    /// The heartbeat checklist (may be empty).
    pub fn heartbeat_content(&self) -> (r: &str)
        ensures
            r@ == self.heartbeat_md@,
    {
        self.heartbeat_md.as_str()
    }

    /// Whether the heartbeat checklist holds a task, not only comments and blank
    /// lines.
    pub fn has_heartbeat_tasks(&self) -> (r: bool)
        ensures
            r == has_tasks(self.heartbeat_md@),
    {
        let cs = chars_of(self.heartbeat_md.as_str());
        let ls = lines_chars(cs.as_slice());
        let n = ls.len();
        for i in 0..n
            invariant
                n == ls@.len(),
                char_views(ls@) == lines(self.heartbeat_md@),
                forall|j: int|
                    0 <= j < i ==> !(trim(lines(self.heartbeat_md@)[j]).len() > 0 && trim(
                        lines(self.heartbeat_md@)[j],
                    )[0] != '#'),
        {
            let t = trim_chars(ls[i].as_slice());
            assert(ls@[i as int]@ == lines(self.heartbeat_md@)[i as int]);
            if t.len() > 0 && t[0] != '#' {
                return true;
            }
        }
        false
    }
}

// ───────────────────────────── Building a persona ─────────────────────────────

/// The prompt files of a workspace as read: `None` for a file that is absent.
pub struct WorkspacePrompts {
    pub agents: Option<String>,
    pub soul: Option<String>,
    pub user: Option<String>,
    pub identity: Option<String>,
    pub tools: Option<String>,
    pub heartbeat: Option<String>,
    pub bootstrap: Option<String>,
    /// MEMORY.md
    pub memory: Option<String>,
    /// memory.md, used when MEMORY.md is absent
    pub memory_lowercase: Option<String>,
}

/// The text of a file that may be absent; an absent file reads as empty.
pub open spec fn text_or_empty(o: Option<String>) -> Seq<char> {
    match o {
        Some(s) => s@,
        None => Seq::empty(),
    }
}

fn take_text(o: Option<String>) -> (s: String)
    ensures
        s@ == text_or_empty(o),
{
    match o {
        Some(s) => s,
        None => String::new(),
    }
}

fn optional_owned(o: Option<&str>) -> (r: Option<String>)
    ensures
        r.is_some() == o.is_some(),
        r.is_some() ==> r.unwrap()@ == o.unwrap()@,
{
    match o {
        Some(s) => Some(owned(s)),
        None => None,
    }
}

/// A persona from the prompt files of a workspace (as read from its `prompts`
/// directory by the caller); MEMORY.md is preferred over
/// memory.md, absent files are empty, and there is no peers or group context.
pub fn load_persona_from_workspace(
    agent_id: &str,
    name: &str,
    emoji: Option<&str>,
    files: WorkspacePrompts,
) -> (p: Persona)
    ensures
        p.agent_id@ == agent_id@,
        p.name@ == name@,
        p.emoji.is_some() == emoji.is_some(),
        p.emoji.is_some() ==> p.emoji.unwrap()@ == emoji.unwrap()@,
        p.agents_md@ == text_or_empty(files.agents),
        p.soul_md@ == text_or_empty(files.soul),
        p.user_md@ == text_or_empty(files.user),
        p.identity_md@ == text_or_empty(files.identity),
        p.tools_md@ == text_or_empty(files.tools),
        p.heartbeat_md@ == text_or_empty(files.heartbeat),
        p.bootstrap_md@ == text_or_empty(files.bootstrap),
        p.memory_md@ == (if files.memory.is_some() {
            text_or_empty(files.memory)
        } else {
            text_or_empty(files.memory_lowercase)
        }),
        p.peers_context@.len() == 0,
        p.group_members_context@.len() == 0,
{
    let memory = match files.memory {
        Some(m) => m,
        None => take_text(files.memory_lowercase),
    };
    Persona {
        agent_id: owned(agent_id),
        name: owned(name),
        emoji: optional_owned(emoji),
        agents_md: take_text(files.agents),
        soul_md: take_text(files.soul),
        user_md: take_text(files.user),
        identity_md: take_text(files.identity),
        tools_md: take_text(files.tools),
        heartbeat_md: take_text(files.heartbeat),
        bootstrap_md: take_text(files.bootstrap),
        memory_md: memory,
        peers_context: String::new(),
        group_members_context: String::new(),
    }
}

/// AGENTS.md built from the older layout: the system prompt, then the style and
/// safety prompts under their own headings when they are not empty.
pub open spec fn legacy_agents_md(system: Seq<char>, style: Seq<char>, safety: Seq<char>) -> Seq<
    char,
> {
    system + (if style.len() > 0 {
        "\n\n## Style\n"@ + style
    } else {
        Seq::empty()
    }) + (if safety.len() > 0 {
        "\n\n## Safety\n"@ + safety
    } else {
        Seq::empty()
    })
}

/// A persona from the older prompt layout (the system, style and safety prompts
/// as read by the caller);
/// every other file is empty.
pub fn load_persona(
    agent_id: &str,
    name: &str,
    emoji: Option<&str>,
    system: Option<String>,
    style: Option<String>,
    safety: Option<String>,
) -> (p: Persona)
    ensures
        p.agent_id@ == agent_id@,
        p.name@ == name@,
        p.emoji.is_some() == emoji.is_some(),
        p.emoji.is_some() ==> p.emoji.unwrap()@ == emoji.unwrap()@,
        p.agents_md@ == legacy_agents_md(
            text_or_empty(system),
            text_or_empty(style),
            text_or_empty(safety),
        ),
        p.soul_md@.len() == 0,
        p.user_md@.len() == 0,
        p.identity_md@.len() == 0,
        p.tools_md@.len() == 0,
        p.heartbeat_md@.len() == 0,
        p.bootstrap_md@.len() == 0,
        p.memory_md@.len() == 0,
        p.peers_context@.len() == 0,
        p.group_members_context@.len() == 0,
{
    let mut agents_md = take_text(system);
    let style = take_text(style);
    let safety = take_text(safety);
    let ghost base = agents_md@;
    if !style.as_str().is_empty() {
        push_str(&mut agents_md, "\n\n## Style\n");
        push_str(&mut agents_md, style.as_str());
    }
    let ghost mid = agents_md@;
    if !safety.as_str().is_empty() {
        push_str(&mut agents_md, "\n\n## Safety\n");
        push_str(&mut agents_md, safety.as_str());
    }
    assert(agents_md@ =~= legacy_agents_md(base, style@, safety@));
    Persona {
        agent_id: owned(agent_id),
        name: owned(name),
        emoji: optional_owned(emoji),
        agents_md,
        soul_md: String::new(),
        user_md: String::new(),
        identity_md: String::new(),
        tools_md: String::new(),
        heartbeat_md: String::new(),
        bootstrap_md: String::new(),
        memory_md: String::new(),
        peers_context: String::new(),
        group_members_context: String::new(),
    }
}

} // verus!
