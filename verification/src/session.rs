//! The `session` command line: which request each argument list asks for,
//! or which usage message it is refused with.
use vstd::prelude::*;

verus! {

/// Options of `session create`.
#[derive(Debug)]
pub struct CreateOptions {
    pub cwd: Option<String>,
    pub label: Option<String>,
    pub goal: Option<String>,
    pub focus: bool,
    pub worktree: bool,
    pub branch: Option<String>,
    pub base: Option<String>,
}

/// What a `session` argument list asks for.
#[derive(Debug)]
pub enum SessionCommand {
    /// Print the help, then exit with `code`.
    Help { code: i32 },
    /// Print `message` on standard error, then exit with status 2.
    Usage { message: String },
    /// Create a linked worktree and its session, then give it the goal.
    CreateWorktree { options: CreateOptions },
    /// Create a session in place.
    CreateWorkspace { options: CreateOptions },
    List,
    Focus { workspace_id: String },
    SetGoal { workspace_id: String, goal: String },
    SetSettled { workspace_id: String, settled: bool },
    /// A legacy background-session command: hand the arguments to `instance`.
    Instance,
}

/// `Option<String>` by its text.
pub open spec fn opt_view(o: Option<String>) -> Option<Seq<char>> {
    match o {
        Some(s) => Some(s@),
        None => None,
    }
}

/// The options of `session create`, by their text.
pub struct CreateOptionsView {
    pub cwd: Option<Seq<char>>,
    pub label: Option<Seq<char>>,
    pub goal: Option<Seq<char>>,
    pub focus: bool,
    pub worktree: bool,
    pub branch: Option<Seq<char>>,
    pub base: Option<Seq<char>>,
}

/// What a `session` argument list asks for, by text.
pub enum CommandView {
    Help { code: i32 },
    Usage { message: Seq<char> },
    CreateWorktree { options: CreateOptionsView },
    CreateWorkspace { options: CreateOptionsView },
    List,
    Focus { workspace_id: Seq<char> },
    SetGoal { workspace_id: Seq<char>, goal: Seq<char> },
    SetSettled { workspace_id: Seq<char>, settled: bool },
    Instance,
}

impl View for CreateOptions {
    type V = CreateOptionsView;

    open spec fn view(&self) -> CreateOptionsView {
        CreateOptionsView {
            cwd: opt_view(self.cwd),
            label: opt_view(self.label),
            goal: opt_view(self.goal),
            focus: self.focus,
            worktree: self.worktree,
            branch: opt_view(self.branch),
            base: opt_view(self.base),
        }
    }
}

impl View for SessionCommand {
    type V = CommandView;

    open spec fn view(&self) -> CommandView {
        match self {
            SessionCommand::Help { code } => CommandView::Help { code: *code },
            SessionCommand::Usage { message } => CommandView::Usage { message: message@ },
            SessionCommand::CreateWorktree { options } => CommandView::CreateWorktree { options: options@ },
            SessionCommand::CreateWorkspace { options } => CommandView::CreateWorkspace { options: options@ },
            SessionCommand::List => CommandView::List,
            SessionCommand::Focus { workspace_id } => CommandView::Focus { workspace_id: workspace_id@ },
            SessionCommand::SetGoal { workspace_id, goal } => CommandView::SetGoal { workspace_id: workspace_id@, goal: goal@ },
            SessionCommand::SetSettled { workspace_id, settled } => CommandView::SetSettled { workspace_id: workspace_id@, settled: *settled },
            SessionCommand::Instance => CommandView::Instance,
        }
    }
}

/// The arguments by their text.
pub open spec fn args_view(args: Seq<String>) -> Seq<Seq<char>> {
    args.map_values(|s: String| s@)
}

/// No option given yet.
pub open spec fn no_options() -> CreateOptionsView {
    CreateOptionsView { cwd: None, label: None, goal: None, focus: false, worktree: false, branch: None, base: None }
}

/// The message for an option given without its value.
pub open spec fn missing_value(option: Seq<char>) -> Seq<char> {
    "missing value for "@ + option
}

/// Reads the `create` options from `args[i..]` into `acc`: a value option
/// takes the next argument (the last occurrence wins); `--focus` and
/// `--no-focus` set focusing, the last one winning; anything else, or a
/// value option at the end, is refused with its message.
pub open spec fn read_create_options(args: Seq<Seq<char>>, i: int, acc: CreateOptionsView) -> Result<CreateOptionsView, Seq<char>>
    decreases args.len() - i,
{
    if i < 0 || i >= args.len() {
        Ok(acc)
    } else {
        let a = args[i];
        if a == "--cwd"@ || a == "--label"@ || a == "--goal"@ || a == "--branch"@ || a == "--base"@ {
            if i + 1 >= args.len() {
                Err(missing_value(a))
            } else {
                let v = Some(args[i + 1]);
                let next = if a == "--cwd"@ {
                    CreateOptionsView { cwd: v, ..acc }
                } else if a == "--label"@ {
                    CreateOptionsView { label: v, ..acc }
                } else if a == "--goal"@ {
                    CreateOptionsView { goal: v, ..acc }
                } else if a == "--branch"@ {
                    CreateOptionsView { branch: v, ..acc }
                } else {
                    CreateOptionsView { base: v, ..acc }
                };
                read_create_options(args, i + 2, next)
            }
        } else if a == "--worktree"@ {
            read_create_options(args, i + 1, CreateOptionsView { worktree: true, ..acc })
        } else if a == "--focus"@ {
            read_create_options(args, i + 1, CreateOptionsView { focus: true, ..acc })
        } else if a == "--no-focus"@ {
            read_create_options(args, i + 1, CreateOptionsView { focus: false, ..acc })
        } else {
            Err("unknown option: "@ + a)
        }
    }
}

/// What `session create` with the arguments `args` asks for: a worktree
/// session when `--worktree` is given (which needs `--branch` or
/// `--base`), a session in place otherwise.
pub open spec fn create_command(args: Seq<Seq<char>>) -> CommandView {
    match read_create_options(args, 0, no_options()) {
        Err(message) => CommandView::Usage { message },
        Ok(options) => if options.worktree {
            if options.branch is None && options.base is None {
                CommandView::Usage { message: "--worktree requires --branch or --base"@ }
            } else {
                CommandView::CreateWorktree { options }
            }
        } else {
            CommandView::CreateWorkspace { options }
        },
    }
}

/// What `session <subcommand> args...` asks for.
pub open spec fn session_command(args: Seq<Seq<char>>) -> CommandView {
    if args.len() == 0 {
        CommandView::Help { code: 2 }
    } else {
        let sub = args[0];
        let rest = args.drop_first();
        if sub == "create"@ {
            create_command(rest)
        } else if sub == "list"@ {
            if rest.len() == 0 { CommandView::List } else { CommandView::Usage { message: "usage: sessionr session list"@ } }
        } else if sub == "focus"@ {
            if rest.len() == 1 {
                CommandView::Focus { workspace_id: rest[0] }
            } else {
                CommandView::Usage { message: "usage: sessionr session focus <session_id>"@ }
            }
        } else if sub == "goal"@ {
            if rest.len() == 2 && rest[1].len() > 0 {
                CommandView::SetGoal { workspace_id: rest[0], goal: rest[1] }
            } else {
                CommandView::Usage { message: "usage: sessionr session goal <session_id> <text>"@ }
            }
        } else if sub == "settle"@ || sub == "unsettle"@ {
            let settled = sub == "settle"@;
            if rest.len() == 1 {
                CommandView::SetSettled { workspace_id: rest[0], settled }
            } else {
                CommandView::Usage { message: "usage: sessionr session "@ + sub + " <session_id>"@ }
            }
        } else if sub == "attach"@ || sub == "stop"@ || sub == "delete"@ {
            CommandView::Instance
        } else if sub == "help"@ || sub == "--help"@ || sub == "-h"@ {
            CommandView::Help { code: 0 }
        } else {
            CommandView::Help { code: 2 }
        }
    }
}

/// Whether `s` and `lit` are the same text.
pub fn same_text(s: &str, lit: &str) -> (b: bool)
    ensures
        b == (s@ == lit@),
{
    let n = s.unicode_len();
    if n != lit.unicode_len() {
        return false;
    }
    let mut i: usize = 0;
    while i < n
        invariant
            n == s@.len(),
            n == lit@.len(),
            i <= n,
            forall|j: int| 0 <= j < i ==> s@[j] == lit@[j],
        decreases n - i,
    {
        if s.get_char(i) != lit.get_char(i) {
            return false;
        }
        i = i + 1;
    }
    assert(s@ =~= lit@);
    true
}

fn copy_string(s: &String) -> (r: String)
    ensures
        r@ == s@,
{
    s.clone()
}

/// What `session create args...` asks for.
pub fn session_create(args: &Vec<String>, start: usize) -> (command: SessionCommand)
    requires
        start <= args@.len(),
    ensures
        command@ == create_command(args_view(args@).skip(start as int)),
{
    let ghost av = args_view(args@).skip(start as int);
    let mut cwd: Option<String> = None;
    let mut label: Option<String> = None;
    let mut goal: Option<String> = None;
    let mut focus = false;
    let mut worktree = false;
    let mut branch: Option<String> = None;
    let mut base: Option<String> = None;

    let mut index = start;
    while index < args.len()
        invariant
            start <= index <= args@.len(),
            av == args_view(args@).skip(start as int),
            read_create_options(av, (index - start) as int, CreateOptionsView {
                cwd: opt_view(cwd), label: opt_view(label), goal: opt_view(goal), focus, worktree,
                branch: opt_view(branch), base: opt_view(base),
            }) == read_create_options(av, 0, no_options()),
        decreases args@.len() - index,
    {
        let arg = args[index].as_str();
        proof {
            reveal_strlit("--cwd");
            reveal_strlit("--label");
            reveal_strlit("--goal");
            reveal_strlit("--branch");
            reveal_strlit("--base");
            reveal_strlit("--worktree");
            reveal_strlit("--focus");
            reveal_strlit("--no-focus");
            assert(av[index - start] == args@[index as int]@);
        }
        let is_cwd = same_text(arg, "--cwd");
        let is_label = same_text(arg, "--label");
        let is_goal = same_text(arg, "--goal");
        let is_branch = same_text(arg, "--branch");
        let is_base = same_text(arg, "--base");
        if is_cwd || is_label || is_goal || is_branch || is_base {
            if index + 1 >= args.len() {
                let mut message = String::from_str("missing value for ");
                message.append(arg);
                return SessionCommand::Usage { message };
            }
            proof { assert(av[index - start + 1] == args@[index + 1]@); }
            let value = Some(copy_string(&args[index + 1]));
            if is_cwd {
                cwd = value;
            } else if is_label {
                label = value;
            } else if is_goal {
                goal = value;
            } else if is_branch {
                branch = value;
            } else {
                base = value;
            }
            index = index + 2;
        } else if same_text(arg, "--worktree") {
            worktree = true;
            index = index + 1;
        } else if same_text(arg, "--focus") {
            focus = true;
            index = index + 1;
        } else if same_text(arg, "--no-focus") {
            focus = false;
            index = index + 1;
        } else {
            let mut message = String::from_str("unknown option: ");
            message.append(arg);
            return SessionCommand::Usage { message };
        }
    }
    let options = CreateOptions { cwd, label, goal, focus, worktree, branch, base };
    if worktree {
        if options.branch.is_none() && options.base.is_none() {
            return SessionCommand::Usage { message: String::from_str("--worktree requires --branch or --base") };
        }
        return SessionCommand::CreateWorktree { options };
    }
    SessionCommand::CreateWorkspace { options }
}


/// What `session list args...` asks for.
pub fn session_list(args: &Vec<String>, start: usize) -> (command: SessionCommand)
    requires
        start <= args@.len(),
    ensures
        command@ == (if args@.len() == start { CommandView::List } else {
            CommandView::Usage { message: "usage: sessionr session list"@ }
        }),
{
    if args.len() != start {
        return SessionCommand::Usage { message: String::from_str("usage: sessionr session list") };
    }
    SessionCommand::List
}

/// What `session focus args...` asks for.
pub fn session_focus(args: &Vec<String>, start: usize) -> (command: SessionCommand)
    requires
        start <= args@.len(),
    ensures
        command@ == (if args@.len() == start + 1 { CommandView::Focus { workspace_id: args@[start as int]@ } } else {
            CommandView::Usage { message: "usage: sessionr session focus <session_id>"@ }
        }),
{
    if args.len() - start != 1 {
        return SessionCommand::Usage { message: String::from_str("usage: sessionr session focus <session_id>") };
    }
    SessionCommand::Focus { workspace_id: copy_string(&args[start]) }
}

/// What `session goal args...` asks for: a session and a non-empty goal.
pub fn session_goal(args: &Vec<String>, start: usize) -> (command: SessionCommand)
    requires
        start <= args@.len(),
    ensures
        command@ == (if args@.len() == start + 2 && args@[start + 1]@.len() > 0 {
            CommandView::SetGoal { workspace_id: args@[start as int]@, goal: args@[start + 1]@ }
        } else {
            CommandView::Usage { message: "usage: sessionr session goal <session_id> <text>"@ }
        }),
{
    if args.len() - start != 2 || args[start + 1].as_str().unicode_len() == 0 {
        return SessionCommand::Usage { message: String::from_str("usage: sessionr session goal <session_id> <text>") };
    }
    SessionCommand::SetGoal { workspace_id: copy_string(&args[start]), goal: copy_string(&args[start + 1]) }
}

/// What `session settle args...` (or `unsettle`) asks for.
pub fn session_set_settled(args: &Vec<String>, start: usize, settled: bool) -> (command: SessionCommand)
    requires
        start <= args@.len(),
    ensures
        command@ == (if args@.len() == start + 1 {
            CommandView::SetSettled { workspace_id: args@[start as int]@, settled }
        } else {
            CommandView::Usage { message: "usage: sessionr session "@ + (if settled { "settle"@ } else { "unsettle"@ }) + " <session_id>"@ }
        }),
{
    if args.len() - start != 1 {
        let mut message = String::from_str("usage: sessionr session ");
        message.append(if settled { "settle" } else { "unsettle" });
        message.append(" <session_id>");
        return SessionCommand::Usage { message };
    }
    SessionCommand::SetSettled { workspace_id: copy_string(&args[start]), settled }
}

/// What a `session` command line asks for.
pub fn run_session_command(args: &Vec<String>) -> (command: SessionCommand)
    ensures
        command@ == session_command(args_view(args@)),
{
    let ghost av = args_view(args@);
    if args.len() == 0 {
        return SessionCommand::Help { code: 2 };
    }
    let sub = args[0].as_str();
    proof {
        assert(av[0] == args@[0]@);
        assert(av.drop_first() == args_view(args@).skip(1));
        reveal_strlit("create");
        reveal_strlit("list");
        reveal_strlit("focus");
        reveal_strlit("goal");
        reveal_strlit("settle");
        reveal_strlit("unsettle");
        reveal_strlit("attach");
        reveal_strlit("stop");
        reveal_strlit("delete");
        reveal_strlit("help");
        reveal_strlit("--help");
        reveal_strlit("-h");
    }
    if same_text(sub, "create") {
        session_create(args, 1)
    } else if same_text(sub, "list") {
        session_list(args, 1)
    } else if same_text(sub, "focus") {
        proof { assert(av.drop_first().len() == 1 ==> av.drop_first()[0] == args@[1]@); }
        session_focus(args, 1)
    } else if same_text(sub, "goal") {
        proof {
            assert(av.drop_first().len() == 2 ==> av.drop_first()[0] == args@[1]@ && av.drop_first()[1] == args@[2]@);
        }
        session_goal(args, 1)
    } else if same_text(sub, "settle") || same_text(sub, "unsettle") {
        let settled = same_text(sub, "settle");
        proof { assert(av.drop_first().len() == 1 ==> av.drop_first()[0] == args@[1]@); }
        session_set_settled(args, 1, settled)
    } else if same_text(sub, "attach") || same_text(sub, "stop") || same_text(sub, "delete") {
        SessionCommand::Instance
    } else if same_text(sub, "help") || same_text(sub, "--help") || same_text(sub, "-h") {
        SessionCommand::Help { code: 0 }
    } else {
        SessionCommand::Help { code: 2 }
    }
}

/// The help of the `session` commands, line by line.
pub fn session_help_lines() -> (lines: Vec<&'static str>)
    ensures
        lines@.len() == 7,
        lines@[0]@ == "sessionr session commands:"@,
        lines@[1]@ == "  sessionr session create [--cwd PATH] [--goal TEXT] [--label TEXT] [--worktree] [--branch NAME] [--base REF] [--focus]"@,
        lines@[2]@ == "  sessionr session list"@,
        lines@[3]@ == "  sessionr session focus <session_id>"@,
        lines@[4]@ == "  sessionr session goal <session_id> <text>"@,
        lines@[5]@ == "  sessionr session settle <session_id>"@,
        lines@[6]@ == "  sessionr session unsettle <session_id>"@,
{
    let mut lines = Vec::new();
    lines.push("sessionr session commands:");
    lines.push("  sessionr session create [--cwd PATH] [--goal TEXT] [--label TEXT] [--worktree] [--branch NAME] [--base REF] [--focus]");
    lines.push("  sessionr session list");
    lines.push("  sessionr session focus <session_id>");
    lines.push("  sessionr session goal <session_id> <text>");
    lines.push("  sessionr session settle <session_id>");
    lines.push("  sessionr session unsettle <session_id>");
    lines
}

/// After a worktree session was created: the goal request to send, when
/// the reply named the new session and a goal was given.
pub fn worktree_goal_request(created_workspace_id: Option<String>, goal: Option<String>) -> (request: Option<(String, String)>)
    ensures
        request is Some <==> (created_workspace_id is Some && goal is Some),
        request matches Some((id, g)) ==> id == created_workspace_id->0 && g == goal->0,
{
    match (created_workspace_id, goal) {
        (Some(id), Some(g)) => Some((id, g)),
        _ => None,
    }
}

proof fn lemma_read_shift(p: Seq<Seq<char>>, s: Seq<Seq<char>>, j: int, acc: CreateOptionsView)
    requires
        0 <= j <= s.len(),
    ensures
        read_create_options(p + s, p.len() + j, acc) == read_create_options(s, j, acc),
    decreases s.len() - j,
{
    let ps = p + s;
    if j < s.len() {
        assert(ps[p.len() + j] == s[j]);
        let a = s[j];
        if takes_value(a) {
            if j + 1 < s.len() {
                assert(ps[p.len() + j + 1] == s[j + 1]);
                lemma_read_shift(p, s, j + 2, step_options(a, s[j + 1], acc));
            }
        } else if a == "--worktree"@ || a == "--focus"@ || a == "--no-focus"@ {
            lemma_read_shift(p, s, j + 1, step_options(a, Seq::empty(), acc));
        }
    } else {
        assert(ps.len() == p.len() + j);
    }
}

/// The options after reading `a` (and its value `v`) into `acc`.
pub open spec fn step_options(a: Seq<char>, v: Seq<char>, acc: CreateOptionsView) -> CreateOptionsView {
    if a == "--cwd"@ {
        CreateOptionsView { cwd: Some(v), ..acc }
    } else if a == "--label"@ {
        CreateOptionsView { label: Some(v), ..acc }
    } else if a == "--goal"@ {
        CreateOptionsView { goal: Some(v), ..acc }
    } else if a == "--branch"@ {
        CreateOptionsView { branch: Some(v), ..acc }
    } else if a == "--base"@ {
        CreateOptionsView { base: Some(v), ..acc }
    } else if a == "--worktree"@ {
        CreateOptionsView { worktree: true, ..acc }
    } else if a == "--focus"@ {
        CreateOptionsView { focus: true, ..acc }
    } else {
        CreateOptionsView { focus: false, ..acc }
    }
}

/// `a` takes a value.
pub open spec fn takes_value(a: Seq<char>) -> bool {
    a == "--cwd"@ || a == "--label"@ || a == "--goal"@ || a == "--branch"@ || a == "--base"@
}

proof fn lemma_read_concat(p: Seq<Seq<char>>, s: Seq<Seq<char>>, i: int, acc: CreateOptionsView)
    requires
        0 <= i <= p.len(),
        read_create_options(p, i, acc) is Ok,
    ensures
        read_create_options(p + s, i, acc) == read_create_options(s, 0, read_create_options(p, i, acc)->Ok_0),
    decreases p.len() - i,
{
    let ps = p + s;
    if i == p.len() {
        lemma_read_shift(p, s, 0, acc);
    } else {
        assert(ps[i] == p[i]);
        let a = p[i];
        if takes_value(a) {
            assert(i + 1 < p.len());
            assert(ps[i + 1] == p[i + 1]);
            lemma_read_concat(p, s, i + 2, step_options(a, p[i + 1], acc));
        } else if a == "--worktree"@ || a == "--focus"@ || a == "--no-focus"@ {
            lemma_read_concat(p, s, i + 1, step_options(a, Seq::empty(), acc));
        }
    }
}

proof fn lemma_value_option_last(prefix: Seq<Seq<char>>, a: Seq<char>, v: Seq<char>)
    requires
        read_create_options(prefix, 0, no_options()) is Ok,
        takes_value(a),
    ensures
        read_create_options(prefix + seq![a, v], 0, no_options())
            == Ok::<CreateOptionsView, Seq<char>>(step_options(a, v, read_create_options(prefix, 0, no_options())->Ok_0)),
{
    let before = read_create_options(prefix, 0, no_options())->Ok_0;
    let s = seq![a, v];
    lemma_read_concat(prefix, s, 0, no_options());
    assert(s[0] == a && s[1] == v && s.len() == 2);
    assert(read_create_options(s, 2, step_options(a, v, before)) == Ok::<CreateOptionsView, Seq<char>>(step_options(a, v, before)));
    assert(read_create_options(s, 0, before) == read_create_options(s, 2, step_options(a, v, before)));
}

/// When the same option is given again, the later value wins: appending
/// `--label v` (or another value option) to accepted `create` options sets
/// that option to `v` and changes nothing else; `--focus` and `--no-focus`
/// likewise leave the last one given in force.
pub proof fn law_last_option_wins(prefix: Seq<Seq<char>>, v: Seq<char>)
    requires
        read_create_options(prefix, 0, no_options()) is Ok,
    ensures
        ({
            let before = read_create_options(prefix, 0, no_options())->Ok_0;
            &&& read_create_options(prefix + seq!["--label"@, v], 0, no_options()) == Ok::<CreateOptionsView, Seq<char>>(CreateOptionsView { label: Some(v), ..before })
            &&& read_create_options(prefix + seq!["--goal"@, v], 0, no_options()) == Ok::<CreateOptionsView, Seq<char>>(CreateOptionsView { goal: Some(v), ..before })
            &&& read_create_options(prefix + seq!["--cwd"@, v], 0, no_options()) == Ok::<CreateOptionsView, Seq<char>>(CreateOptionsView { cwd: Some(v), ..before })
            &&& read_create_options(prefix + seq!["--branch"@, v], 0, no_options()) == Ok::<CreateOptionsView, Seq<char>>(CreateOptionsView { branch: Some(v), ..before })
            &&& read_create_options(prefix + seq!["--base"@, v], 0, no_options()) == Ok::<CreateOptionsView, Seq<char>>(CreateOptionsView { base: Some(v), ..before })
            &&& read_create_options(prefix + seq!["--focus"@], 0, no_options()) == Ok::<CreateOptionsView, Seq<char>>(CreateOptionsView { focus: true, ..before })
            &&& read_create_options(prefix + seq!["--no-focus"@], 0, no_options()) == Ok::<CreateOptionsView, Seq<char>>(CreateOptionsView { focus: false, ..before })
        }),
{
    let before = read_create_options(prefix, 0, no_options())->Ok_0;
    reveal_strlit("--cwd");
    reveal_strlit("--label");
    reveal_strlit("--goal");
    reveal_strlit("--branch");
    reveal_strlit("--base");
    reveal_strlit("--worktree");
    reveal_strlit("--focus");
    reveal_strlit("--no-focus");
    assert("--cwd"@.len() == 5 && "--label"@.len() == 7 && "--goal"@.len() == 6 && "--branch"@.len() == 8
        && "--base"@.len() == 6 && "--worktree"@.len() == 10 && "--focus"@.len() == 7 && "--no-focus"@.len() == 10);
    assert("--goal"@[2] != "--base"@[2]);
    assert("--focus"@[2] != "--label"@[2]);
    assert("--no-focus"@[2] != "--worktree"@[2]);
    assert("--branch"@ != "--cwd"@ && "--branch"@ != "--label"@ && "--branch"@ != "--goal"@);
    assert("--base"@ != "--cwd"@ && "--base"@ != "--label"@ && "--base"@ != "--goal"@ && "--base"@ != "--branch"@);
    assert("--focus"@ != "--cwd"@ && "--focus"@ != "--label"@ && "--focus"@ != "--goal"@ && "--focus"@ != "--branch"@
        && "--focus"@ != "--base"@ && "--focus"@ != "--worktree"@);
    assert("--no-focus"@ != "--cwd"@ && "--no-focus"@ != "--label"@ && "--no-focus"@ != "--goal"@ && "--no-focus"@ != "--branch"@
        && "--no-focus"@ != "--base"@ && "--no-focus"@ != "--worktree"@ && "--no-focus"@ != "--focus"@);
    lemma_value_option_last(prefix, "--label"@, v);
    lemma_value_option_last(prefix, "--goal"@, v);
    lemma_value_option_last(prefix, "--cwd"@, v);
    lemma_value_option_last(prefix, "--branch"@, v);
    lemma_value_option_last(prefix, "--base"@, v);
    lemma_read_concat(prefix, seq!["--focus"@], 0, no_options());
    lemma_read_concat(prefix, seq!["--no-focus"@], 0, no_options());
    assert(read_create_options(seq!["--focus"@], 0, before) == read_create_options(seq!["--focus"@], 1, CreateOptionsView { focus: true, ..before }));
    assert(read_create_options(seq!["--no-focus"@], 0, before) == read_create_options(seq!["--no-focus"@], 1, CreateOptionsView { focus: false, ..before }));
}

/// `session create` carries the options it read unchanged: a command line
/// whose options are accepted asks for a worktree session (when
/// `--worktree` comes with `--branch` or `--base`) or a session in place,
/// with exactly those options; the goal it carries is the last `--goal`
/// value given.
pub proof fn law_create_carries_read_options(args: Seq<Seq<char>>, prefix: Seq<Seq<char>>, goal: Seq<char>)
    ensures
        read_create_options(args, 0, no_options()) matches Ok(o) ==> create_command(args) == if !o.worktree {
            CommandView::CreateWorkspace { options: o }
        } else if o.branch is Some || o.base is Some {
            CommandView::CreateWorktree { options: o }
        } else {
            CommandView::Usage { message: "--worktree requires --branch or --base"@ }
        },
        read_create_options(prefix, 0, no_options()) is Ok ==> match create_command(prefix + seq!["--goal"@, goal]) {
            CommandView::CreateWorktree { options } => options.goal == Some(goal),
            CommandView::CreateWorkspace { options } => options.goal == Some(goal),
            CommandView::Usage { message } => message == "--worktree requires --branch or --base"@,
            _ => false,
        },
{
    if read_create_options(prefix, 0, no_options()) is Ok {
        law_last_option_wins(prefix, goal);
    }
}

} // verus!
