//! Decisions of the plan executor.
//!
//! Executing a plan alternates between asking the model for the next step
//! and carrying out the tool calls it requests. The asking and the tool
//! I/O happen outside; this module decides, from the state and each event,
//! what happens next: which tool action a call amounts to (a command of any
//! risk above `Low` never runs), when execution finishes and with which
//! response, and what the conversation and the list of completed steps
//! become.
use vstd::prelude::*;
use crate::agent::types::{
    conversation, opt_pending_view, steps_view, AgentContext, AgentResponse, ExecutionStep,
    PendingCommand, PendingView, ResponseView, StepView,
};
use crate::llm::{
    chat, json_string_field, json_text_field, messages_view, tool_catalog, ChatMessage,
    ChatMessageView, ToolCall,
};
use crate::models::ProjectType;
use crate::security::{assess_risk, command_risk, RiskLevel};
use crate::text::{
    chars_of, concat2, concat3, copy_opt_string, copy_string, occurs_at, occurs_at_exec,
    opt_str_view, str_eq, string_from_chars, to_owned_string, trim, trim_chars,
};
use crate::tools::{error_view, success_view, ToolResult, ToolView};

verus! {

/// The system prompt of the executor.
pub const EXECUTOR_PROMPT: &'static str = "你是 DeepSeek Code Agent 的执行工程师。你已经获得用户确认的开发计划，现在需要逐步执行完成项目开发。\n\n你可以使用以下工具：\n- read_file(path): 读取文件\n- write_file(path, content): 写入文件（支持多级目录自动创建）\n- edit_file(path, old_string, new_string): 局部修改文件\n- list_directory(path): 列出目录\n- execute_command(command, description): 执行 shell 命令\n- ask_user(question, options): 向用户提问\n\n执行原则：\n1. 一次调用一个工具，等待结果后再决定下一步。\n2. 优先创建项目骨架和关键文件。\n3. 命令执行前说明用途。\n4. 如果命令失败，分析错误并尝试修复。\n5. 完成后回复 DONE: <总结>。\n\n请使用工具调用格式回复。";

/// Most rounds of asking the model in one execution.
pub const MAX_ITERATIONS: u32 = 30;

// ---------------------------------------------------------------------------
// Tool dispatch
// ---------------------------------------------------------------------------

/// The string arguments of a tool call, each present when the call's JSON
/// arguments hold that field as a string.
#[derive(Debug)]
pub struct ToolArgs {
    pub path: Option<String>,
    pub content: Option<String>,
    pub old_string: Option<String>,
    pub new_string: Option<String>,
    pub command: Option<String>,
    pub description: Option<String>,
    pub question: Option<String>,
}

/// Tool arguments as plain values.
pub struct ArgsView {
    pub path: Option<Seq<char>>,
    pub content: Option<Seq<char>>,
    pub old_string: Option<Seq<char>>,
    pub new_string: Option<Seq<char>>,
    pub command: Option<Seq<char>>,
    pub description: Option<Seq<char>>,
    pub question: Option<Seq<char>>,
}

impl View for ToolArgs {
    type V = ArgsView;

    open spec fn view(&self) -> ArgsView {
        ArgsView {
            path: opt_str_view(self.path),
            content: opt_str_view(self.content),
            old_string: opt_str_view(self.old_string),
            new_string: opt_str_view(self.new_string),
            command: opt_str_view(self.command),
            description: opt_str_view(self.description),
            question: opt_str_view(self.question),
        }
    }
}

/// The arguments read from a tool call's JSON text.
pub open spec fn args_of_json(text: Seq<char>) -> ArgsView {
    ArgsView {
        path: json_text_field(text, "path"@),
        content: json_text_field(text, "content"@),
        old_string: json_text_field(text, "old_string"@),
        new_string: json_text_field(text, "new_string"@),
        command: json_text_field(text, "command"@),
        description: json_text_field(text, "description"@),
        question: json_text_field(text, "question"@),
    }
}

impl ToolArgs {
    /// Reads the string arguments of a tool call from its JSON text.
    pub fn from_json(arguments: &str) -> (a: ToolArgs)
        ensures
            a@ == args_of_json(arguments@),
    {
        ToolArgs {
            path: json_string_field(arguments, "path"),
            content: json_string_field(arguments, "content"),
            old_string: json_string_field(arguments, "old_string"),
            new_string: json_string_field(arguments, "new_string"),
            command: json_string_field(arguments, "command"),
            description: json_string_field(arguments, "description"),
            question: json_string_field(arguments, "question"),
        }
    }
}

/// What a tool call amounts to.
#[derive(Debug)]
pub enum ToolAction {
    /// Read a file of the project.
    ReadFile { path: String },
    /// Write a file of the project.
    WriteFile { path: String, content: String },
    /// Replace text in a file of the project.
    EditFile { path: String, old_string: String, new_string: String },
    /// List a directory of the project.
    ListDirectory { path: String },
    /// Run a (low-risk) command in the project directory.
    RunCommand { command: String },
    /// Nothing to carry out: this result is reported, and execution pauses
    /// when a command awaits confirmation.
    Respond { result: ToolResult, pending_command: Option<PendingCommand> },
}

/// A tool action as plain values.
pub enum ActionView {
    ReadFile { path: Seq<char> },
    WriteFile { path: Seq<char>, content: Seq<char> },
    EditFile { path: Seq<char>, old_string: Seq<char>, new_string: Seq<char> },
    ListDirectory { path: Seq<char> },
    RunCommand { command: Seq<char> },
    Respond { result: ToolView, pending_command: Option<PendingView> },
}

impl View for ToolAction {
    type V = ActionView;

    open spec fn view(&self) -> ActionView {
        match self {
            ToolAction::ReadFile { path } => ActionView::ReadFile { path: path@ },
            ToolAction::WriteFile { path, content } => ActionView::WriteFile {
                path: path@,
                content: content@,
            },
            ToolAction::EditFile { path, old_string, new_string } => ActionView::EditFile {
                path: path@,
                old_string: old_string@,
                new_string: new_string@,
            },
            ToolAction::ListDirectory { path } => ActionView::ListDirectory { path: path@ },
            ToolAction::RunCommand { command } => ActionView::RunCommand { command: command@ },
            ToolAction::Respond { result, pending_command } => ActionView::Respond {
                result: result@,
                pending_command: opt_pending_view(*pending_command),
            },
        }
    }
}

/// An optional text, or a default.
pub open spec fn or_text(o: Option<Seq<char>>, d: Seq<char>) -> Seq<char> {
    match o {
        Some(s) => s,
        None => d,
    }
}

/// The action a tool call with this name and these arguments amounts to.
pub open spec fn tool_action(name: Seq<char>, a: ArgsView) -> ActionView {
    if name == "read_file"@ {
        ActionView::ReadFile { path: or_text(a.path, ""@) }
    } else if name == "write_file"@ {
        ActionView::WriteFile { path: or_text(a.path, ""@), content: or_text(a.content, ""@) }
    } else if name == "edit_file"@ {
        ActionView::EditFile {
            path: or_text(a.path, ""@),
            old_string: or_text(a.old_string, ""@),
            new_string: or_text(a.new_string, ""@),
        }
    } else if name == "list_directory"@ {
        ActionView::ListDirectory { path: or_text(a.path, "."@) }
    } else if name == "execute_command"@ {
        let command = or_text(a.command, ""@);
        let description = or_text(a.description, "执行命令"@);
        match command_risk(command) {
            RiskLevel::Blocked => ActionView::Respond {
                result: error_view("该命令已被安全策略阻止"@),
                pending_command: None,
            },
            RiskLevel::High => ActionView::Respond {
                result: error_view("等待用户确认"@),
                pending_command: Some((command, description)),
            },
            RiskLevel::Low => ActionView::RunCommand { command },
        }
    } else if name == "ask_user"@ {
        ActionView::Respond {
            result: success_view("已向用户提问："@ + or_text(a.question, ""@)),
            pending_command: None,
        }
    } else {
        ActionView::Respond { result: error_view("未知工具: "@ + name), pending_command: None }
    }
}

fn text_or(o: &Option<String>, d: &str) -> (r: String)
    ensures
        r@ == or_text(opt_str_view(*o), d@),
{
    match o {
        Some(s) => copy_string(s),
        None => to_owned_string(d),
    }
}

/// The action a tool call with this name and these arguments amounts to.
pub fn plan_tool_action(name: &str, args: &ToolArgs) -> (action: ToolAction)
    ensures
        action@ == tool_action(name@, args@),
{
    if str_eq(name, "read_file") {
        ToolAction::ReadFile { path: text_or(&args.path, "") }
    } else if str_eq(name, "write_file") {
        ToolAction::WriteFile { path: text_or(&args.path, ""), content: text_or(&args.content, "") }
    } else if str_eq(name, "edit_file") {
        ToolAction::EditFile {
            path: text_or(&args.path, ""),
            old_string: text_or(&args.old_string, ""),
            new_string: text_or(&args.new_string, ""),
        }
    } else if str_eq(name, "list_directory") {
        ToolAction::ListDirectory { path: text_or(&args.path, ".") }
    } else if str_eq(name, "execute_command") {
        let command = text_or(&args.command, "");
        let description = text_or(&args.description, "执行命令");
        match assess_risk(command.as_str()) {
            RiskLevel::Blocked => ToolAction::Respond {
                result: ToolResult::error(to_owned_string("该命令已被安全策略阻止")),
                pending_command: None,
            },
            RiskLevel::High => ToolAction::Respond {
                result: ToolResult::error(to_owned_string("等待用户确认")),
                pending_command: Some(PendingCommand { command, description }),
            },
            RiskLevel::Low => ToolAction::RunCommand { command },
        }
    } else if str_eq(name, "ask_user") {
        let q = text_or(&args.question, "");
        ToolAction::Respond {
            result: ToolResult::success(concat2("已向用户提问：", q.as_str())),
            pending_command: None,
        }
    } else {
        ToolAction::Respond {
            result: ToolResult::error(concat2("未知工具: ", name)),
            pending_command: None,
        }
    }
}

/// The action a tool call requested by the model amounts to.
pub fn plan_tool_call(call: &ToolCall) -> (action: ToolAction)
    ensures
        action@ == tool_action(call.function.name@, args_of_json(call.function.arguments@)),
{
    let args = ToolArgs::from_json(call.function.arguments.as_str());
    plan_tool_action(call.function.name.as_str(), &args)
}

/// Only commands assessed `Low` are ever run; a `High` command is held for
/// confirmation with its own text, and a `Blocked` one is neither run nor
/// held.
pub proof fn lemma_only_low_risk_commands_run(name: Seq<char>, a: ArgsView)
    ensures
        tool_action(name, a) matches ActionView::RunCommand { command } ==> command_risk(command)
            == RiskLevel::Low,
        tool_action(name, a) matches ActionView::Respond { pending_command: Some(p), .. } ==> (
        command_risk(p.0) == RiskLevel::High && p.0 == or_text(a.command, ""@)),
        tool_action(name, a) matches ActionView::Respond { pending_command: Some(p), .. } ==> p.1
            == or_text(a.description, "执行命令"@),
{
}

/// The file tools act on the paths and texts the call gives (a missing
/// path is the project directory itself for a listing and empty
/// otherwise; a missing text is empty); a low-risk command runs as given;
/// a refused command is answered "该命令已被安全策略阻止" and neither run nor
/// held; a question is answered as asked; any other name is an unknown
/// tool.
pub proof fn lemma_tool_calls_carry_their_arguments(a: ArgsView)
    ensures
        tool_action("read_file"@, a) == (ActionView::ReadFile { path: or_text(a.path, ""@) }),
        tool_action("write_file"@, a) == (ActionView::WriteFile {
            path: or_text(a.path, ""@),
            content: or_text(a.content, ""@),
        }),
        tool_action("edit_file"@, a) == (ActionView::EditFile {
            path: or_text(a.path, ""@),
            old_string: or_text(a.old_string, ""@),
            new_string: or_text(a.new_string, ""@),
        }),
        tool_action("list_directory"@, a) == (ActionView::ListDirectory {
            path: or_text(a.path, "."@),
        }),
        a.path == Some(Seq::<char>::empty()) ==> tool_action("list_directory"@, a) == (
        ActionView::ListDirectory { path: Seq::<char>::empty() }),
        command_risk(or_text(a.command, ""@)) == RiskLevel::Low ==> tool_action(
            "execute_command"@,
            a,
        ) == (ActionView::RunCommand { command: or_text(a.command, ""@) }),
        command_risk(or_text(a.command, ""@)) == RiskLevel::Blocked ==> tool_action(
            "execute_command"@,
            a,
        ) == (ActionView::Respond {
            result: error_view("该命令已被安全策略阻止"@),
            pending_command: None,
        }),
        tool_action("ask_user"@, a) == (ActionView::Respond {
            result: success_view("已向用户提问："@ + or_text(a.question, ""@)),
            pending_command: None,
        }),
{
    reveal_strlit("execute_command");
    reveal_strlit("read_file");
    reveal_strlit("write_file");
    reveal_strlit("edit_file");
    reveal_strlit("list_directory");
    reveal_strlit("ask_user");
    assert("write_file"@ != "read_file"@);
    assert("edit_file"@[0] != "read_file"@[0]);
    assert("edit_file"@ != "read_file"@);
    assert("edit_file"@ != "write_file"@);
    assert("list_directory"@ != "read_file"@);
    assert("list_directory"@ != "write_file"@);
    assert("list_directory"@ != "edit_file"@);
    assert("execute_command"@ != "read_file"@);
    assert("execute_command"@ != "write_file"@);
    assert("execute_command"@ != "edit_file"@);
    assert("execute_command"@ != "list_directory"@);
    assert("ask_user"@ != "read_file"@);
    assert("ask_user"@ != "write_file"@);
    assert("ask_user"@ != "edit_file"@);
    assert("ask_user"@ != "list_directory"@);
    assert("ask_user"@ != "execute_command"@);
}

/// A command the model asks to run that needs confirmation is held, not
/// run: the answer is the error "等待用户确认", and the held command is the
/// call's command with the call's description.
pub proof fn lemma_risky_command_is_held(a: ArgsView, command: Seq<char>, description: Seq<char>)
    requires
        a.command == Some(command),
        a.description == Some(description),
        command_risk(command) == RiskLevel::High,
    ensures
        tool_action("execute_command"@, a) == (ActionView::Respond {
            result: error_view("等待用户确认"@),
            pending_command: Some((command, description)),
        }),
{
    reveal_strlit("execute_command");
    reveal_strlit("read_file");
    reveal_strlit("write_file");
    reveal_strlit("edit_file");
    reveal_strlit("list_directory");
    assert("execute_command"@ != "read_file"@);
    assert("execute_command"@ != "write_file"@);
    assert("execute_command"@ != "edit_file"@);
    assert("execute_command"@ != "list_directory"@);
}

// ---------------------------------------------------------------------------
// Execution state
// ---------------------------------------------------------------------------

/// The model's reply in one round: its text and the tool calls it asks for.
#[derive(Debug)]
pub struct AssistantReply {
    pub content: Option<String>,
    pub tool_calls: Option<Vec<ToolCall>>,
}

/// Where an execution stands: the conversation so far, the steps carried
/// out, and how many rounds the model was asked. It is made only by
/// `Executor::start` and changed only by the steps below, so the number of
/// rounds never passes `MAX_ITERATIONS`.
#[derive(Debug)]
pub struct ExecutionState {
    messages: Vec<ChatMessage>,
    completed_steps: Vec<ExecutionStep>,
    iteration: u32,
}

/// What follows the model's reply.
#[derive(Debug)]
pub enum ReplyOutcome {
    /// Execution is over, with this final response.
    Finished(AgentResponse),
    /// Carry out the reply's tool calls, in order.
    RunTools,
}

/// What follows a carried-out tool call.
#[derive(Debug)]
pub enum ToolStep {
    /// Go on with the next call or round.
    Continue,
    /// Execution pauses until the user confirms this command.
    Pause { response: AgentResponse, pending_command: PendingCommand },
}

/// The response when the model has been asked the maximum number of times
/// (or gave no choice).
pub open spec fn max_rounds_view() -> ResponseView {
    ResponseView::Done {
        summary: "已达到最大执行轮数，项目骨架已生成。"@,
        next_steps: seq!["请手动检查项目目录中的代码"@],
    }
}

/// The summary announced by a reply starting with `DONE:` (after
/// trimming), if it does.
pub open spec fn done_summary(content: Seq<char>) -> Option<Seq<char>> {
    let t = trim(content);
    if occurs_at(t, "DONE:"@, 0) {
        Some(trim(t.subrange("DONE:"@.len() as int, t.len() as int)))
    } else {
        None
    }
}

/// The final response a reply leads to, if it ends the execution.
pub open spec fn reply_finish(content: Option<Seq<char>>, has_tool_calls: bool) -> Option<ResponseView> {
    if content is Some && done_summary(content->0) is Some {
        Some(ResponseView::Done {
            summary: done_summary(content->0)->0,
            next_steps: seq!["你可以在项目目录中查看生成的代码"@],
        })
    } else if !has_tool_calls {
        Some(ResponseView::Done { summary: or_text(content, "执行完成"@), next_steps: seq![] })
    } else {
        None
    }
}

/// A reply that announces `DONE:` (after trimming) finishes the execution
/// with the text after the marker, trimmed, as its summary. A reply that
/// asks for no tool and announces nothing finishes with its whole text as
/// the summary ("执行完成" when it has no text). A reply with tool calls and
/// no `DONE:` goes on.
pub proof fn lemma_reply_finish(c: Seq<char>, has_tool_calls: bool)
    ensures
        occurs_at(trim(c), "DONE:"@, 0) ==> reply_finish(Some(c), has_tool_calls) == Some(
            ResponseView::Done {
                summary: trim(trim(c).subrange("DONE:"@.len() as int, trim(c).len() as int)),
                next_steps: seq!["你可以在项目目录中查看生成的代码"@],
            },
        ),
        !occurs_at(trim(c), "DONE:"@, 0) && !has_tool_calls ==> reply_finish(Some(c), has_tool_calls)
            == Some(ResponseView::Done { summary: c, next_steps: seq![] }),
        !occurs_at(trim(c), "DONE:"@, 0) && has_tool_calls ==> reply_finish(Some(c), has_tool_calls)
            is None,
        !has_tool_calls ==> reply_finish(None, has_tool_calls) == Some(
            ResponseView::Done { summary: "执行完成"@, next_steps: seq![] },
        ),
        has_tool_calls ==> reply_finish(None, has_tool_calls) is None,
{
}

/// The message recording a tool's result in the conversation.
pub open spec fn tool_report(name: Seq<char>, r: ToolView) -> Seq<char> {
    "工具 "@ + name + " 执行结果："@ + (if r.0 {
        "成功"@
    } else {
        "失败"@
    }) + "\n"@ + r.1
}

/// The description of a step: the tool's name and its JSON arguments.
pub open spec fn step_description(name: Seq<char>, arguments: Seq<char>) -> Seq<char> {
    name + ": "@ + arguments
}

/// The first request of an execution: the plan and the project path.
pub open spec fn start_request(plan_json: Seq<char>, project_path: Seq<char>) -> Seq<char> {
    "请开始执行以下开发计划："@ + plan_json + "\n\n项目路径："@ + project_path
        + "\n请使用工具调用逐步完成。"@
}

/// A fresh vector of texts holding one text.
fn single_text(s: &str) -> (v: Vec<String>)
    ensures
        v@.len() == 1,
        v@[0]@ == s@,
{
    let mut v: Vec<String> = Vec::new();
    v.push(to_owned_string(s));
    v
}

/// The response when the model has been asked the maximum number of times.
pub fn max_rounds_response() -> (r: AgentResponse)
    ensures
        r@ == max_rounds_view(),
{
    let next = single_text("请手动检查项目目录中的代码");
    let r = AgentResponse::Done {
        summary: to_owned_string("已达到最大执行轮数，项目骨架已生成。"),
        next_steps: next,
    };
    assert(r@ == max_rounds_view()) by {
        if let AgentResponse::Done { next_steps, .. } = r {
            assert(crate::text::strings_view(next_steps@) =~= seq!["请手动检查项目目录中的代码"@]);
        }
    }
    r
}

/// The summary a reply announces with `DONE:`, if it does.
pub fn parse_done(content: &str) -> (res: Option<String>)
    ensures
        opt_str_view(res) == done_summary(content@),
{
    let c = chars_of(content);
    let t = trim_chars(&c);
    let marker = chars_of("DONE:");
    if occurs_at_exec(&t, &marker, 0) {
        let mut rest: Vec<char> = Vec::new();
        let mut k: usize = marker.len();
        while k < t.len()
            invariant
                marker@ == "DONE:"@,
                marker.len() <= k <= t.len(),
                rest@ =~= t@.subrange(marker@.len() as int, k as int),
            decreases t.len() - k,
        {
            rest.push(t[k]);
            k = k + 1;
        }
        let s = trim_chars(&rest);
        Some(string_from_chars(&s))
    } else {
        None
    }
}

/// A tool call's report line in the conversation.
pub fn tool_report_text(name: &str, result: &ToolResult) -> (s: String)
    ensures
        s@ == tool_report(name@, result@),
{
    let mut s = concat3("工具 ", name, " 执行结果：");
    if result.success {
        s.append("成功");
    } else {
        s.append("失败");
    }
    s.append("\n");
    s.append(result.output.as_str());
    s
}

/// The executor of a confirmed plan for one project and session.
#[derive(Debug)]
pub struct Executor {
    pub context: AgentContext,
    pub session_id: String,
}

impl Executor {
    /// An executor working in this context and session.
    pub fn new(context: AgentContext, session_id: String) -> (e: Executor)
        ensures
            e.context == context,
            e.session_id == session_id,
    {
        Executor { context, session_id }
    }

    /// The system message recording the confirmed plan in the session.
    pub fn plan_record(&self, plan_json: &str) -> (s: String)
        ensures
            s@ == "已确认的开发计划："@ + plan_json@,
    {
        concat2("已确认的开发计划：", plan_json)
    }

    /// The state an execution starts from: the conversation is the
    /// executor prompt, the stored messages and the request to execute the
    /// plan; no step is done and no round is used.
    pub fn start(&self, plan_json: &str) -> (st: ExecutionState)
        ensures
            st.chat_log() == conversation(EXECUTOR_PROMPT@, self.context.messages@).push(
                chat("user"@, start_request(plan_json@, self.context.project_path@)),
            ),
            st.steps_done().len() == 0,
            st.rounds() == 0,
    {
        let mut messages = self.context.to_chat_messages(EXECUTOR_PROMPT);
        let mut req = concat3("请开始执行以下开发计划：", plan_json, "\n\n项目路径：");
        req.append(self.context.project_path.as_str());
        req.append("\n请使用工具调用逐步完成。");
        let ghost before = messages@;
        messages.push(ChatMessage::user(req));
        assert(messages_view(messages@) =~= messages_view(before).push(
            chat("user"@, start_request(plan_json@, self.context.project_path@)),
        ));
        ExecutionState { messages, completed_steps: Vec::new(), iteration: 0 }
    }
}

impl ExecutionState {
    /// The conversation so far.
    pub closed spec fn chat_log(&self) -> Seq<ChatMessageView> {
        messages_view(self.messages@)
    }

    /// The steps carried out so far.
    pub closed spec fn steps_done(&self) -> Seq<StepView> {
        steps_view(self.completed_steps@)
    }

    /// How many rounds the model was asked.
    pub closed spec fn rounds(&self) -> int {
        self.iteration as int
    }

    /// The conversation so far.
    pub fn messages(&self) -> (m: &Vec<ChatMessage>)
        ensures
            messages_view(m@) == self.chat_log(),
    {
        &self.messages
    }

    /// The steps carried out so far.
    pub fn completed_steps(&self) -> (v: &Vec<ExecutionStep>)
        ensures
            steps_view(v@) == self.steps_done(),
    {
        &self.completed_steps
    }

    /// How many rounds the model was asked.
    pub fn iteration(&self) -> (n: u32)
        ensures
            n == self.rounds(),
    {
        self.iteration
    }

    /// The steps carried out, when the execution ends.
    pub fn into_steps(self) -> (v: Vec<ExecutionStep>)
        ensures
            steps_view(v@) == self.steps_done(),
    {
        self.completed_steps
    }

    /// Starts a new round of asking the model, unless the maximum number of
    /// rounds is used up; the model is never asked more than
    /// `MAX_ITERATIONS` times.
    pub fn begin_round(&mut self) -> (go: bool)
        ensures
            go == (old(self).rounds() < MAX_ITERATIONS),
            final(self).rounds() == if go {
                old(self).rounds() + 1
            } else {
                old(self).rounds()
            },
            go ==> final(self).rounds() <= MAX_ITERATIONS,
            old(self).rounds() <= MAX_ITERATIONS ==> final(self).rounds() <= MAX_ITERATIONS,
            final(self).chat_log() == old(self).chat_log(),
            final(self).steps_done() == old(self).steps_done(),
    {
        if self.iteration < MAX_ITERATIONS {
            self.iteration = self.iteration + 1;
            true
        } else {
            false
        }
    }

    /// Takes in the model's reply of this round (`None` when it gave no
    /// choice): the reply joins the conversation, and execution finishes
    /// when the reply announces `DONE:` or asks for no tool; a missing
    /// reply ends it as if the rounds were used up.
    pub fn absorb_reply(&mut self, reply: Option<&AssistantReply>) -> (out: ReplyOutcome)
        ensures
            final(self).steps_done() == old(self).steps_done(),
            final(self).rounds() == old(self).rounds(),
            match reply {
                None => final(self).chat_log() == old(self).chat_log()
                    && (out matches ReplyOutcome::Finished(r) && r@ == max_rounds_view()),
                Some(rep) => {
                    &&& final(self).chat_log() == old(self).chat_log().push(chat("assistant"@, or_text(opt_str_view(rep.content), ""@)))
                    &&& match reply_finish(opt_str_view(rep.content), rep.tool_calls is Some) {
                        Some(v) => out matches ReplyOutcome::Finished(r) && r@ == v,
                        None => out is RunTools,
                    }
                },
            },
    {
        match reply {
            None => ReplyOutcome::Finished(max_rounds_response()),
            Some(rep) => {
                let text = text_or(&rep.content, "");
                let ghost before = self.messages@;
                self.messages.push(ChatMessage { role: to_owned_string("assistant"), content: text });
                assert(messages_view(self.messages@) =~= messages_view(before).push(
                    chat("assistant"@, or_text(opt_str_view(rep.content), ""@)),
                ));
                if let Some(c) = &rep.content {
                    if let Some(summary) = parse_done(c.as_str()) {
                        let next = single_text("你可以在项目目录中查看生成的代码");
                        let r = AgentResponse::Done { summary, next_steps: next };
                        assert(crate::text::strings_view(next@) =~= seq![
                            "你可以在项目目录中查看生成的代码"@,
                        ]);
                        return ReplyOutcome::Finished(r);
                    }
                }
                if rep.tool_calls.is_none() {
                    let summary = text_or(&rep.content, "执行完成");
                    let none: Vec<String> = Vec::new();
                    assert(crate::text::strings_view(none@) =~= seq![]);
                    let r = AgentResponse::Done { summary, next_steps: none };
                    return ReplyOutcome::Finished(r);
                }
                ReplyOutcome::RunTools
            },
        }
    }

    /// Records a carried-out tool call: it becomes a completed step; when a
    /// command awaits confirmation execution pauses with it, otherwise the
    /// result joins the conversation.
    pub fn record_tool(
        &mut self,
        call: &ToolCall,
        result: ToolResult,
        pending_command: Option<PendingCommand>,
    ) -> (out: ToolStep)
        ensures
            final(self).steps_done() == old(self).steps_done().push(
                (step_description(call.function.name@, call.function.arguments@), result@),
            ),
            final(self).rounds() == old(self).rounds(),
            match pending_command {
                Some(p) => final(self).chat_log() == old(self).chat_log() && (out matches ToolStep::Pause { response, pending_command: q } && response@
                    == (ResponseView::CommandConfirmation {
                    command: p.command@,
                    description: p.description@,
                }) && q@ == p@),
                None => final(self).chat_log() == old(self).chat_log().push(chat("tool"@, tool_report(call.function.name@, result@))) && out is Continue,
            },
    {
        let report = tool_report_text(call.function.name.as_str(), &result);
        let description = concat3(call.function.name.as_str(), ": ", call.function.arguments.as_str());
        let ghost steps_before = self.completed_steps@;
        let ghost result_view = result@;
        self.completed_steps.push(ExecutionStep { description, tool_result: result });
        assert(steps_view(self.completed_steps@) =~= steps_view(steps_before).push(
            (step_description(call.function.name@, call.function.arguments@), result_view),
        ));
        match pending_command {
            Some(p) => {
                let response = AgentResponse::CommandConfirmation {
                    command: copy_string(&p.command),
                    description: copy_string(&p.description),
                };
                ToolStep::Pause { response, pending_command: p }
            },
            None => {
                let ghost before = self.messages@;
                self.messages.push(ChatMessage { role: to_owned_string("tool"), content: report });
                assert(messages_view(self.messages@) =~= messages_view(before).push(
                    chat("tool"@, tool_report(call.function.name@, result_view)),
                ));
                ToolStep::Continue
            },
        }
    }
}

} // verus!

verus! {

/// A tool name the executor carries out.
pub open spec fn known_tool(name: Seq<char>) -> bool {
    name == "read_file"@ || name == "write_file"@ || name == "edit_file"@ || name
        == "list_directory"@ || name == "execute_command"@ || name == "ask_user"@
}

/// Every tool offered to the model is one the executor carries out, and a
/// call of any other name is answered as an unknown tool.
pub proof fn lemma_offered_tools_are_carried_out(name: Seq<char>, a: ArgsView)
    ensures
        forall|t: int| 0 <= t < tool_catalog().len() ==> known_tool(#[trigger] tool_catalog()[t].name),
        !known_tool(name) ==> tool_action(name, a) == (ActionView::Respond {
            result: error_view("未知工具: "@ + name),
            pending_command: None,
        }),
{
}

} // verus!
