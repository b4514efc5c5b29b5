//! Delegating a task to another agent: whether a sub-agent may run, what it
//! runs with, and how its outcome is reported.
use vstd::prelude::*;
use crate::config::FullAgentConfig;
use crate::persona::{Persona, assembled_prompt};
use crate::keyed::{unique_keys, has_key, value_of, find_key};
use crate::text::{copy_string, copy_strings, decimal, owned, push_str, seq_join, str_eq, views, u64_to_string};
use crate::tool::ToolOutput;

verus! {

/// A request to run a task on another agent.
pub struct SubAgentRequest {
    pub parent_run_id: String,
    pub trace_id: String,
    pub target_agent_id: String,
    pub task: String,
    pub timeout_seconds: u64,
    /// How deep in a chain of delegations this request is.
    pub depth: u32,
}

/// What a sub-agent run gave.
pub struct SubAgentResult {
    pub run_id: String,
    pub output: String,
    pub success: bool,
}

/// What a run is started with.
pub struct SpawnPlan {
    pub primary: String,
    pub fallbacks: Vec<String>,
    /// The target's minimal persona prompt, empty without a persona.
    pub system_prompt: String,
    pub task: String,
    pub timeout_seconds: u64,
}

/// Runs tasks on other agents, within a depth limit.
pub struct SubAgentRunner {
    pub agents: Vec<FullAgentConfig>,
    /// Personas by agent id.
    pub personas: Vec<(String, Persona)>,
    pub max_depth: u32,
    pub allowed_tools: Vec<String>,
}

/// The configuration that an agent id names: the last one given for it (as a
/// map built from the list keeps it).
pub open spec fn agent_named(agents: Seq<FullAgentConfig>, id: Seq<char>) -> Option<FullAgentConfig>
    decreases agents.len(),
{
    if agents.len() == 0 {
        None
    } else if agents.last().agent_id@ == id {
        Some(agents.last())
    } else {
        agent_named(agents.drop_last(), id)
    }
}

/// Why a sub-agent cannot start, if it cannot: too deep, or no such agent.
pub open spec fn spawn_error(depth: u32, max_depth: u32, agents: Seq<FullAgentConfig>, target: Seq<char>) -> Option<Seq<char>> {
    if depth >= max_depth {
        Some("sub-agent recursion depth "@ + decimal(depth as nat) + " exceeds maximum "@ + decimal(max_depth as nat))
    } else if agent_named(agents, target) is None {
        Some("sub-agent not found: "@ + target)
    } else {
        None
    }
}

/// Finds the configuration of an agent id.
pub fn find_agent(agents: &Vec<FullAgentConfig>, id: &str) -> (r: Option<usize>)
    ensures
        match agent_named(agents@, id@) {
            Some(a) => r is Some && r.unwrap() < agents@.len() && agents@[r.unwrap() as int] == a,
            None => r is None,
        },
{
    let mut i = agents.len();
    assert(agents@.take(i as int) =~= agents@);
    while i > 0
        invariant
            i <= agents@.len(),
            agent_named(agents@, id@) == agent_named(agents@.take(i as int), id@),
        decreases i,
    {
        let ghost t = agents@.take(i as int);
        assert(t.drop_last() =~= agents@.take(i - 1));
        assert(t.last() == agents@[i - 1]);
        if str_eq(agents[i - 1].agent_id.as_str(), id) {
            return Some(i - 1);
        }
        i = i - 1;
    }
    None
}

impl SubAgentRunner {
    /// Personas are keyed by distinct agent ids.
    pub open spec fn wf(&self) -> bool {
        unique_keys(self.personas@)
    }

    /// A runner over the given agents and personas.
    pub fn new(
        agents: Vec<FullAgentConfig>,
        personas: Vec<(String, Persona)>,
        max_depth: u32,
        allowed_tools: Vec<String>,
    ) -> (r: Self)
        requires
            unique_keys(personas@),
        ensures
            r.wf(),
            r.agents == agents,
            r.personas == personas,
            r.max_depth == max_depth,
            r.allowed_tools == allowed_tools,
    {
        SubAgentRunner { agents, personas, max_depth, allowed_tools }
    }

    /// The tools sub-agents may use.
    pub fn allowed_tools(&self) -> (r: &Vec<String>)
        ensures
            r == &self.allowed_tools,
    {
        &self.allowed_tools
    }

    /// What a request runs with, or why it cannot run: a request at or beyond
    /// the depth limit, or for an unknown agent, is refused; otherwise it runs
    /// the target's models with its minimal persona prompt.
    pub fn plan_spawn(&self, req: &SubAgentRequest) -> (r: Result<SpawnPlan, String>)
        requires
            self.wf(),
        ensures
            match spawn_error(req.depth, self.max_depth, self.agents@, req.target_agent_id@) {
                Some(e) => r is Err && r->Err_0@ == e,
                None => r is Ok && {
                    let a = agent_named(self.agents@, req.target_agent_id@).unwrap();
                    let p = r->Ok_0;
                    &&& p.primary@ == a.model_policy.primary@
                    &&& views(p.fallbacks@) == views(a.model_policy.fallbacks@)
                    &&& p.system_prompt@ == (if has_key(self.personas@, req.target_agent_id@) {
                        assembled_prompt(value_of(self.personas@, req.target_agent_id@), true)
                    } else {
                        Seq::empty()
                    })
                    &&& p.task@ == req.task@
                    &&& p.timeout_seconds == req.timeout_seconds
                },
            },
    {
        if req.depth >= self.max_depth {
            let mut e = owned("sub-agent recursion depth ");
            let d = u64_to_string(req.depth as u64);
            push_str(&mut e, d.as_str());
            push_str(&mut e, " exceeds maximum ");
            let m = u64_to_string(self.max_depth as u64);
            push_str(&mut e, m.as_str());
            return Err(e);
        }
        let idx = match find_agent(&self.agents, req.target_agent_id.as_str()) {
            Some(i) => i,
            None => {
                let mut e = owned("sub-agent not found: ");
                push_str(&mut e, req.target_agent_id.as_str());
                return Err(e);
            },
        };
        let agent = &self.agents[idx];
        let system_prompt = match find_key(&self.personas, req.target_agent_id.as_str()) {
            Some(k) => self.personas[k].1.assembled_system_prompt_minimal(),
            None => String::new(),
        };
        Ok(SpawnPlan {
            primary: copy_string(&agent.model_policy.primary),
            fallbacks: copy_strings(&agent.model_policy.fallbacks),
            system_prompt,
            task: copy_string(&req.task),
            timeout_seconds: req.timeout_seconds,
        })
    }
}

/// How a sub-agent's model call ended.
pub enum RunOutcome {
    /// The model replied with this text.
    Replied(String),
    /// The call failed with this error.
    Failed(String),
    /// The timeout passed first.
    TimedOut,
}

/// The result of a run from how its model call ended.
pub fn run_result(run_id: String, outcome: RunOutcome) -> (r: SubAgentResult)
    ensures
        r.run_id == run_id,
        match outcome {
            RunOutcome::Replied(t) => r.output == t && r.success,
            RunOutcome::Failed(e) => r.output == e && !r.success,
            RunOutcome::TimedOut => r.output@ == "sub-agent timeout"@ && !r.success,
        },
{
    match outcome {
        RunOutcome::Replied(t) => SubAgentResult { run_id, output: t, success: true },
        RunOutcome::Failed(e) => SubAgentResult { run_id, output: e, success: false },
        RunOutcome::TimedOut => SubAgentResult { run_id, output: owned("sub-agent timeout"), success: false },
    }
}

/// How waiting for a run's task ended.
pub enum JoinOutcome {
    /// The task finished with this result.
    Finished(SubAgentResult),
    /// The task was cancelled.
    Cancelled,
    /// The task panicked; the text of its error.
    Panicked(String),
}

/// The result reported when waiting for run `run_id` ended as given.
pub fn joined_result(run_id: &str, outcome: JoinOutcome) -> (r: SubAgentResult)
    ensures
        match outcome {
            JoinOutcome::Finished(res) => r == res,
            JoinOutcome::Cancelled => r.run_id@ == run_id@ && r.output@ == "task cancelled"@ && !r.success,
            JoinOutcome::Panicked(e) => r.run_id@ == run_id@ && r.output@ == "task panicked: "@ + e@
                && !r.success,
        },
{
    match outcome {
        JoinOutcome::Finished(res) => res,
        JoinOutcome::Cancelled => SubAgentResult { run_id: owned(run_id), output: owned("task cancelled"), success: false },
        JoinOutcome::Panicked(e) => {
            let mut out = owned("task panicked: ");
            push_str(&mut out, e.as_str());
            SubAgentResult { run_id: owned(run_id), output: out, success: false }
        },
    }
}

/// The outputs of the successful runs, in order.
pub open spec fn successful_outputs(rs: Seq<SubAgentResult>) -> Seq<Seq<char>>
    decreases rs.len(),
{
    if rs.len() == 0 {
        seq![]
    } else {
        successful_outputs(rs.drop_last()) + if rs.last().success {
            seq![rs.last().output@]
        } else {
            seq![]
        }
    }
}

impl SubAgentRunner {
    /// The outputs of the successful runs, separated by rules.
    pub fn result_merge(results: &Vec<SubAgentResult>) -> (r: String)
        ensures
            r@ == seq_join(successful_outputs(results@), "\n\n---\n\n"@),
    {
        let mut outs: Vec<String> = Vec::new();
        let n = results.len();
        assert(results@.take(0) =~= Seq::<SubAgentResult>::empty());
        for i in 0..n
            invariant
                n == results@.len(),
                views(outs@) == successful_outputs(results@.take(i as int)),
        {
            let ghost t = results@.take(i + 1);
            assert(t.drop_last() =~= results@.take(i as int));
            assert(t.last() == results@[i as int]);
            let ghost before = views(outs@);
            if results[i].success {
                outs.push(copy_string(&results[i].output));
                assert(views(outs@) =~= before.push(results@[i as int].output@));
            } else {
                assert(views(outs@) =~= before + Seq::<Seq<char>>::empty());
            }
        }
        assert(results@.take(n as int) =~= results@);
        crate::text::join_strings(&outs, "\n\n---\n\n")
    }
}

// ───────────────────────────── The delegation tool ─────────────────────────────

/// The arguments of a `delegate_task` call, as read from its JSON.
pub struct DelegateInput {
    pub target_agent_id: Option<String>,
    pub task: Option<String>,
    pub timeout_seconds: Option<u64>,
}

/// The delegation tool: runs tasks through a runner, with a default timeout.
pub struct SubAgentTool {
    pub runner: SubAgentRunner,
    pub default_timeout: u64,
}

impl SubAgentTool {
    pub fn new(runner: SubAgentRunner, default_timeout: u64) -> (r: Self)
        ensures
            r.runner == runner,
            r.default_timeout == default_timeout,
    {
        SubAgentTool { runner, default_timeout }
    }

    /// The request a call asks for (a top-level one, with the given run
    /// ids), or the error for a missing field.
    pub fn delegate_request(&self, input: DelegateInput, parent_run_id: String, trace_id: String) -> (r: Result<
        SubAgentRequest,
        String,
    >)
        ensures
            match input.target_agent_id {
                None => r is Err && r->Err_0@ == "missing 'target_agent_id' field"@,
                Some(target) => match input.task {
                    None => r is Err && r->Err_0@ == "missing 'task' field"@,
                    Some(task) => r is Ok && r->Ok_0 == (SubAgentRequest {
                        parent_run_id,
                        trace_id,
                        target_agent_id: target,
                        task,
                        timeout_seconds: match input.timeout_seconds {
                            Some(t) => t,
                            None => self.default_timeout,
                        },
                        depth: 0,
                    }),
                },
            },
    {
        let target_agent_id = match input.target_agent_id {
            Some(t) => t,
            None => return Err(owned("missing 'target_agent_id' field")),
        };
        let task = match input.task {
            Some(t) => t,
            None => return Err(owned("missing 'task' field")),
        };
        let timeout_seconds = match input.timeout_seconds {
            Some(t) => t,
            None => self.default_timeout,
        };
        Ok(SubAgentRequest { parent_run_id, trace_id, target_agent_id, task, timeout_seconds, depth: 0 })
    }
}

/// The tool output when the sub-agent could not start.
pub fn spawn_failed_output(error: &str) -> (r: ToolOutput)
    ensures
        r.content@ == "Failed to spawn sub-agent: "@ + error@,
        r.is_error,
{
    let mut content = owned("Failed to spawn sub-agent: ");
    push_str(&mut content, error);
    ToolOutput { content, is_error: true }
}

/// The tool output of a finished run: its output, an error when it failed.
pub fn delegated_output(result: Result<SubAgentResult, String>) -> (r: ToolOutput)
    ensures
        match result {
            Ok(res) => r.content == res.output && r.is_error == !res.success,
            Err(e) => r.content@ == "Failed to get sub-agent result: "@ + e@ && r.is_error,
        },
{
    match result {
        Ok(res) => ToolOutput { content: res.output, is_error: !res.success },
        Err(e) => {
            let mut content = owned("Failed to get sub-agent result: ");
            push_str(&mut content, e.as_str());
            ToolOutput { content, is_error: true }
        },
    }
}

} // verus!
