//! The reminders service a sandboxed command may reach through the broker:
//! which `remindctl` invocation each request becomes, and which policy checks
//! come first.
use vstd::prelude::*;
use crate::text::{concat2, copy_string, owned, push_str, str_eq, views};

verus! {

/// The parameters of a reminders request (the string ones; `clear_due` is
/// the only flag).
pub struct ReminderParams {
    pub list: Option<String>,
    pub title: Option<String>,
    pub id: Option<String>,
    pub due_date: Option<String>,
    pub clear_due: Option<bool>,
    pub notes: Option<String>,
    pub priority: Option<String>,
}

/// A policy check to pass before running the command.
pub enum ReminderCheck {
    /// The reminder list must be in the allowed scope.
    Scope(String),
    /// The service method must be allowed.
    Service,
}

/// Model of a check.
pub enum CheckView {
    Scope(Seq<char>),
    Service,
}

impl ReminderCheck {
    pub open spec fn view(&self) -> CheckView {
        match self {
            ReminderCheck::Scope(l) => CheckView::Scope(l@),
            ReminderCheck::Service => CheckView::Service,
        }
    }
}

/// What a request becomes: the checks, in order, and the `remindctl`
/// arguments.
pub struct ReminderCall {
    pub checks: Vec<ReminderCheck>,
    pub args: Vec<String>,
}

/// The views of checks.
pub open spec fn check_views(cs: Seq<ReminderCheck>) -> Seq<CheckView> {
    cs.map_values(|c: ReminderCheck| c.view())
}

/// `[flag, value]` when the value is given.
pub open spec fn opt_arg(flag: Seq<char>, v: Option<String>) -> Seq<Seq<char>> {
    match v {
        Some(x) => seq![flag, x@],
        None => seq![],
    }
}

/// A scope check for the list, when one is named.
pub open spec fn opt_scope(v: Option<String>) -> Seq<CheckView> {
    match v {
        Some(x) => seq![CheckView::Scope(x@)],
        None => seq![],
    }
}

/// The invocation a request asks for, or why it is refused (an unknown method,
/// or a missing required parameter).
pub open spec fn reminder_call(method: Seq<char>, p: ReminderParams) -> Result<(Seq<CheckView>, Seq<Seq<char>>), Seq<char>> {
    if method == "list"@ {
        Ok((
            opt_scope(p.list) + seq![CheckView::Service],
            seq!["list"@] + match p.list {
                Some(l) => seq![l@],
                None => seq![],
            } + seq!["--json"@, "--no-input"@],
        ))
    } else if method == "add"@ {
        match (p.list, p.title) {
            (None, _) => Err("reminders.add requires 'list'"@),
            (Some(_), None) => Err("reminders.add requires 'title'"@),
            (Some(l), Some(t)) => Ok((
                seq![CheckView::Service, CheckView::Scope(l@)],
                seq!["add"@, "--title"@, t@, "--list"@, l@, "--json"@, "--no-input"@] + opt_arg(
                    "--due"@,
                    p.due_date,
                ) + opt_arg("--notes"@, p.notes) + opt_arg("--priority"@, p.priority),
            )),
        }
    } else if method == "update"@ {
        match p.id {
            None => Err("reminders.update requires 'id'"@),
            Some(id) => Ok((
                seq![CheckView::Service] + opt_scope(p.list),
                seq!["edit"@, id@, "--json"@, "--no-input"@] + opt_arg("--title"@, p.title) + opt_arg(
                    "--list"@,
                    p.list,
                ) + opt_arg("--due"@, p.due_date) + (if p.clear_due == Some(true) {
                    seq!["--clear-due"@]
                } else {
                    seq![]
                }) + opt_arg("--notes"@, p.notes) + opt_arg("--priority"@, p.priority),
            )),
        }
    } else if method == "complete"@ {
        match p.id {
            None => Err("reminders.complete requires 'id'"@),
            Some(id) => Ok((seq![CheckView::Service], seq!["complete"@, id@, "--json"@, "--no-input"@])),
        }
    } else if method == "delete"@ {
        match p.id {
            None => Err("reminders.delete requires 'id'"@),
            Some(id) => Ok(
                (seq![CheckView::Service], seq!["delete"@, id@, "--force"@, "--json"@, "--no-input"@]),
            ),
        }
    } else {
        Err("Unknown reminders method: "@ + method)
    }
}

fn push_opt_arg(args: &mut Vec<String>, flag: &str, v: &Option<String>)
    ensures
        views(final(args)@) == views(old(args)@) + opt_arg(flag@, *v),
{
    let ghost before = views(args@);
    match v {
        Some(x) => {
            args.push(owned(flag));
            args.push(copy_string(x));
            assert(views(args@) =~= before + seq![flag@, x@]);
        },
        None => {
            assert(views(args@) =~= before + Seq::<Seq<char>>::empty());
        },
    }
}

fn push_arg(args: &mut Vec<String>, a: &str)
    ensures
        views(final(args)@) == views(old(args)@).push(a@),
{
    let ghost before = views(args@);
    args.push(owned(a));
    assert(views(args@) =~= before.push(a@));
}

/// Turns a reminders request into its checks and `remindctl` arguments.
pub fn reminders_call(method: &str, p: &ReminderParams) -> (r: Result<ReminderCall, String>)
    ensures
        match reminder_call(method@, *p) {
            Ok((checks, args)) => r is Ok && check_views(r->Ok_0.checks@) == checks && views(r->Ok_0.args@)
                == args,
            Err(e) => r is Err && r->Err_0@ == e,
        },
{
    let mut args: Vec<String> = Vec::new();
    let mut checks: Vec<ReminderCheck> = Vec::new();
    if str_eq(method, "list") {
        match &p.list {
            Some(l) => {
                checks.push(ReminderCheck::Scope(copy_string(l)));
            },
            None => {},
        }
        checks.push(ReminderCheck::Service);
        assert(check_views(checks@) =~= opt_scope(p.list) + seq![CheckView::Service]);
        push_arg(&mut args, "list");
        match &p.list {
            Some(l) => {
                let ghost b = views(args@);
                args.push(copy_string(l));
                assert(views(args@) =~= b.push(l@));
            },
            None => {},
        }
        push_arg(&mut args, "--json");
        push_arg(&mut args, "--no-input");
        assert(views(args@) =~= seq!["list"@] + match p.list {
            Some(l) => seq![l@],
            None => Seq::<Seq<char>>::empty(),
        } + seq!["--json"@, "--no-input"@]);
        Ok(ReminderCall { checks, args })
    } else if str_eq(method, "add") {
        let l = match &p.list {
            Some(l) => l,
            None => return Err(owned("reminders.add requires 'list'")),
        };
        let t = match &p.title {
            Some(t) => t,
            None => return Err(owned("reminders.add requires 'title'")),
        };
        checks.push(ReminderCheck::Service);
        checks.push(ReminderCheck::Scope(copy_string(l)));
        assert(check_views(checks@) =~= seq![CheckView::Service, CheckView::Scope(l@)]);
        push_arg(&mut args, "add");
        push_arg(&mut args, "--title");
        let ghost b = views(args@);
        args.push(copy_string(t));
        assert(views(args@) =~= b.push(t@));
        push_arg(&mut args, "--list");
        let ghost b2 = views(args@);
        args.push(copy_string(l));
        assert(views(args@) =~= b2.push(l@));
        push_arg(&mut args, "--json");
        push_arg(&mut args, "--no-input");
        assert(views(args@) =~= seq!["add"@, "--title"@, t@, "--list"@, l@, "--json"@, "--no-input"@]);
        push_opt_arg(&mut args, "--due", &p.due_date);
        push_opt_arg(&mut args, "--notes", &p.notes);
        push_opt_arg(&mut args, "--priority", &p.priority);
        Ok(ReminderCall { checks, args })
    } else if str_eq(method, "update") {
        let id = match &p.id {
            Some(i) => i,
            None => return Err(owned("reminders.update requires 'id'")),
        };
        checks.push(ReminderCheck::Service);
        match &p.list {
            Some(l) => {
                checks.push(ReminderCheck::Scope(copy_string(l)));
            },
            None => {},
        }
        assert(check_views(checks@) =~= seq![CheckView::Service] + opt_scope(p.list));
        push_arg(&mut args, "edit");
        let ghost b = views(args@);
        args.push(copy_string(id));
        assert(views(args@) =~= b.push(id@));
        push_arg(&mut args, "--json");
        push_arg(&mut args, "--no-input");
        assert(views(args@) =~= seq!["edit"@, id@, "--json"@, "--no-input"@]);
        push_opt_arg(&mut args, "--title", &p.title);
        push_opt_arg(&mut args, "--list", &p.list);
        push_opt_arg(&mut args, "--due", &p.due_date);
        let ghost b3 = views(args@);
        if p.clear_due == Some(true) {
            push_arg(&mut args, "--clear-due");
            assert(views(args@) =~= b3 + seq!["--clear-due"@]);
        } else {
            assert(views(args@) =~= b3 + Seq::<Seq<char>>::empty());
        }
        push_opt_arg(&mut args, "--notes", &p.notes);
        push_opt_arg(&mut args, "--priority", &p.priority);
        Ok(ReminderCall { checks, args })
    } else if str_eq(method, "complete") {
        let id = match &p.id {
            Some(i) => i,
            None => return Err(owned("reminders.complete requires 'id'")),
        };
        checks.push(ReminderCheck::Service);
        assert(check_views(checks@) =~= seq![CheckView::Service]);
        push_arg(&mut args, "complete");
        let ghost b = views(args@);
        args.push(copy_string(id));
        assert(views(args@) =~= b.push(id@));
        push_arg(&mut args, "--json");
        push_arg(&mut args, "--no-input");
        assert(views(args@) =~= seq!["complete"@, id@, "--json"@, "--no-input"@]);
        Ok(ReminderCall { checks, args })
    } else if str_eq(method, "delete") {
        let id = match &p.id {
            Some(i) => i,
            None => return Err(owned("reminders.delete requires 'id'")),
        };
        checks.push(ReminderCheck::Service);
        assert(check_views(checks@) =~= seq![CheckView::Service]);
        push_arg(&mut args, "delete");
        let ghost b = views(args@);
        args.push(copy_string(id));
        assert(views(args@) =~= b.push(id@));
        push_arg(&mut args, "--force");
        push_arg(&mut args, "--json");
        push_arg(&mut args, "--no-input");
        assert(views(args@) =~= seq!["delete"@, id@, "--force"@, "--json"@, "--no-input"@]);
        Ok(ReminderCall { checks, args })
    } else {
        Err(concat2("Unknown reminders method: ", method))
    }
}

/// The error when `remindctl` fails: the subcommand that ran and what it wrote
/// to its error output.
pub fn remindctl_failure(subcommand: &str, stderr: &str) -> (r: String)
    ensures
        r@ == "remindctl "@ + subcommand@ + " failed: "@ + stderr@,
{
    let mut e = concat2("remindctl ", subcommand);
    push_str(&mut e, " failed: ");
    push_str(&mut e, stderr);
    e
}

} // verus!
