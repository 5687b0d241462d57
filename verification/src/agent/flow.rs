//! Handling of user requests: the message a user sends, the title of a new
//! session, where a message leads (execution, clarification and planning,
//! or an error), what is stored as the assistant's reply, the decision on a
//! plan approval, and the response to a confirmed command.
use vstd::prelude::*;
use vstd::utf8::encode_utf8;
use crate::agent::types::{
    AgentResponse, DevelopmentPlan, PlanAction, PlanApprovalRequest, PlanView, ResponseView,
};
use crate::models::{PlanStatus, Project};
use crate::security::{assess_risk, command_risk, RiskLevel};
use crate::text::{concat2, copy_opt_string, copy_string, join, join_strings, opt_str_view, strings_view, to_owned_string};
use crate::tools::{ToolResult, ToolView};

verus! {

/// A message the user sends to the agent.
#[derive(Debug)]
pub struct SendMessageRequest {
    pub project_id: String,
    pub session_id: Option<String>,
    pub content: String,
    pub referenced_files: Option<Vec<String>>,
}

/// The agent's answer to a message, with the session it belongs to.
#[derive(Debug)]
pub struct SendMessageResponse {
    pub session_id: String,
    pub response: AgentResponse,
}

/// The number of bytes a character takes in UTF-8.
pub open spec fn utf8_width(c: char) -> int {
    if (c as u32) < 0x80 {
        1
    } else if (c as u32) < 0x800 {
        2
    } else if (c as u32) < 0x10000 {
        3
    } else {
        4
    }
}

/// How many leading characters of `s` fit in `budget` bytes of UTF-8.
pub open spec fn fitting_chars(s: Seq<char>, budget: int) -> nat
    decreases s.len(),
{
    if s.len() == 0 || utf8_width(s[0]) > budget {
        0
    } else {
        1 + fitting_chars(s.drop_first(), budget - utf8_width(s[0]))
    }
}

/// The number of bytes of the UTF-8 encoding of `s`, character by
/// character.
pub open spec fn utf8_bytes(s: Seq<char>) -> int
    decreases s.len(),
{
    if s.len() == 0 {
        0
    } else {
        utf8_width(s[0]) + utf8_bytes(s.drop_first())
    }
}

proof fn lemma_utf8_bytes_encode(s: Seq<char>)
    ensures
        encode_utf8(s).len() == utf8_bytes(s),
    decreases s.len(),
{
    if s.len() > 0 {
        lemma_utf8_bytes_encode(s.drop_first());
        vstd::utf8::char_is_scalar(s[0]);
    }
}

proof fn lemma_fitting_chars(s: Seq<char>, budget: int)
    requires
        budget >= 0,
    ensures
        fitting_chars(s, budget) <= s.len(),
        utf8_bytes(s.take(fitting_chars(s, budget) as int)) <= budget,
        fitting_chars(s, budget) < s.len() ==> utf8_bytes(
            s.take(fitting_chars(s, budget) + 1int),
        ) > budget,
    decreases s.len(),
{
    let n = fitting_chars(s, budget);
    if s.len() == 0 {
        assert(s.take(0) =~= Seq::<char>::empty());
    } else if utf8_width(s[0]) > budget {
        assert(s.take(0) =~= Seq::<char>::empty());
        assert(s.take(1).drop_first() =~= Seq::<char>::empty());
        assert(s.take(1)[0] == s[0]);
    } else {
        let rest = s.drop_first();
        let b2 = budget - utf8_width(s[0]);
        lemma_fitting_chars(rest, b2);
        let m = fitting_chars(rest, b2);
        assert(s.take(n as int)[0] == s[0]);
        assert(s.take(n as int).drop_first() =~= rest.take(m as int));
        if n < s.len() {
            assert(s.take(n + 1int)[0] == s[0]);
            assert(s.take(n + 1int).drop_first() =~= rest.take(m + 1int));
        }
    }
}

/// A session title is the longest run of leading characters of the
/// message whose UTF-8 encoding fits in 20 bytes: it fits, and one more
/// character would not.
pub proof fn lemma_title_fits(content: Seq<char>)
    ensures
        ({
            let n = fitting_chars(content, TITLE_BYTES as int);
            &&& n <= content.len()
            &&& encode_utf8(content.take(n as int)).len() <= 20
            &&& n < content.len() ==> encode_utf8(content.take(n + 1int)).len() > 20
        }),
{
    let n = fitting_chars(content, TITLE_BYTES as int);
    lemma_fitting_chars(content, TITLE_BYTES as int);
    lemma_utf8_bytes_encode(content.take(n as int));
    if n < content.len() {
        lemma_utf8_bytes_encode(content.take(n + 1int));
    }
}

/// Most bytes of UTF-8 a session title takes from the message.
pub const TITLE_BYTES: u32 = 20;

/// The title of a session opened by a message: the longest run of its
/// leading characters that fits in 20 bytes of UTF-8, so the cut always
/// falls between two characters (all of the message when it is shorter).
pub fn session_title(content: &str) -> (title: String)
    ensures
        title@ == content@.take(fitting_chars(content@, TITLE_BYTES as int) as int),
        content@.len() > 0 ==> title@.len() > 0,
{
    let chars = crate::text::chars_of(content);
    let ghost s = chars@;
    let mut used: u32 = 0;
    let mut n: usize = 0;
    let mut title: Vec<char> = Vec::new();
    assert(s.skip(0) =~= s);
    assert(title@ =~= s.take(0));
    loop
        invariant
            s == chars@,
            n <= chars.len(),
            used <= TITLE_BYTES,
            fitting_chars(s, TITLE_BYTES as int) == n + fitting_chars(s.skip(n as int), TITLE_BYTES - used),
            title@ == s.take(n as int),
            n == 0 ==> used == 0,
        ensures
            n < s.len() ==> utf8_width(s[n as int]) > TITLE_BYTES - used,
        decreases chars.len() - n,
    {
        if n >= chars.len() {
            break;
        }
        let c = chars[n];
        let w: u32 = if (c as u32) < 0x80 {
            1
        } else if (c as u32) < 0x800 {
            2
        } else if (c as u32) < 0x10000 {
            3
        } else {
            4
        };
        assert(s.skip(n as int)[0] == c);
        assert(w == utf8_width(c));
        if w > TITLE_BYTES - used {
            break;
        }
        assert(s.skip(n as int).drop_first() =~= s.skip(n + 1));
        assert(title@.push(c) =~= s.take(n + 1));
        title.push(c);
        used = used + w;
        n = n + 1;
    }
    proof {
        if s.len() > 0 {
            assert(n > 0);
        }
        if n < s.len() {
            assert(s.skip(n as int)[0] == s[n as int]);
            assert(fitting_chars(s.skip(n as int), TITLE_BYTES - used) == 0);
        } else {
            assert(s.skip(n as int).len() == 0);
        }
    }
    crate::text::string_from_chars(&title)
}

/// The stored text of a user message: its content, followed by the list of
/// referenced files when there is one.
pub open spec fn user_content(content: Seq<char>, files: Option<Seq<Seq<char>>>) -> Seq<char> {
    match files {
        Some(f) => content + "\n\n引用的文件："@ + join(f, ", "@),
        None => content,
    }
}

/// The stored text of a user message.
pub fn user_message_content(req: &SendMessageRequest) -> (s: String)
    ensures
        s@ == user_content(req.content@, match req.referenced_files {
            Some(f) => Some(strings_view(f@)),
            None => None,
        }),
{
    match &req.referenced_files {
        Some(files) => {
            let mut s = concat2(req.content.as_str(), "\n\n引用的文件：");
            let list = join_strings(files, ", ");
            s.append(list.as_str());
            s
        },
        None => copy_string(&req.content),
    }
}

/// Where a user message leads.
#[derive(Debug)]
pub enum MessageRoute {
    /// The plan is confirmed: execute the plan stored as this JSON text.
    Execute { plan_json: String },
    /// No confirmed plan: clarify the requirements, then plan.
    ClarifyThenPlan,
    /// The project does not exist: answer with this response.
    Answer(AgentResponse),
}

/// The response when a project does not exist.
pub open spec fn missing_project_view() -> ResponseView {
    ResponseView::Error { message: "项目不存在"@ }
}

/// Decides where a message leads from the project it is about.
pub fn route_message(project: Option<&Project>) -> (route: MessageRoute)
    ensures
        match project {
            None => route matches MessageRoute::Answer(r) && r@ == missing_project_view(),
            Some(p) => if p.plan_status == Some(PlanStatus::Confirmed) {
                route matches MessageRoute::Execute { plan_json } && plan_json@ == match p.plan_json {
                    Some(j) => j@,
                    None => "{}"@,
                }
            } else {
                route is ClarifyThenPlan
            },
        },
{
    match project {
        None => MessageRoute::Answer(AgentResponse::Error { message: to_owned_string("项目不存在") }),
        Some(p) => match p.plan_status {
            Some(PlanStatus::Confirmed) => {
                let plan_json = match &p.plan_json {
                    Some(j) => copy_string(j),
                    None => to_owned_string("{}"),
                };
                MessageRoute::Execute { plan_json }
            },
            _ => MessageRoute::ClarifyThenPlan,
        },
    }
}

/// Whether planning follows a clarification step's response: it does
/// unless the model asked clarifying questions.
pub fn needs_planning(clarification: &AgentResponse) -> (go: bool)
    ensures
        go == !(clarification@ is Clarification),
{
    match clarification {
        AgentResponse::Clarification { .. } => false,
        _ => true,
    }
}

/// The text stored as the assistant's message for a response.
pub open spec fn assistant_text(r: ResponseView) -> Option<Seq<char>> {
    match r {
        ResponseView::Message { content } => Some(content),
        ResponseView::Done { summary, .. } => Some(summary),
        ResponseView::Error { message } => Some(message),
        _ => None,
    }
}

/// The text stored as the assistant's message for a response: the
/// message, the summary of a finished execution, or the error.
pub fn assistant_content(response: &AgentResponse) -> (s: Option<String>)
    ensures
        opt_str_view(s) == assistant_text(response@),
{
    match response {
        AgentResponse::Message { content } => Some(copy_string(content)),
        AgentResponse::Done { summary, .. } => Some(copy_string(summary)),
        AgentResponse::Error { message } => Some(copy_string(message)),
        _ => None,
    }
}

/// What a plan approval leads to.
#[derive(Debug)]
pub enum ApprovalStep {
    /// Store this plan as confirmed, open a session with this title and
    /// execute the plan in it.
    Execute { plan: DevelopmentPlan, session_title: String },
    /// Store the project's plan text as rejected and answer with this
    /// response.
    Reject { plan_json: String, response: AgentResponse },
    /// Ask the model to revise this plan according to this feedback.
    Replan { feedback: String, previous_plan: DevelopmentPlan },
    /// The request fails with this message.
    Fail { message: String },
}

/// Decides what a plan approval leads to, given the project it is about.
pub fn decide_plan_approval(req: PlanApprovalRequest, project: Option<&Project>) -> (step: ApprovalStep)
    ensures
        match project {
            None => step matches ApprovalStep::Fail { message } && message@ == "项目不存在"@,
            Some(p) => match req.action {
                PlanAction::Confirm => match req.modified_plan {
                    Some(plan) => step matches ApprovalStep::Execute { plan: q, session_title }
                        && q@ == plan@ && session_title@ == "计划执行"@,
                    None => step matches ApprovalStep::Fail { message } && message@
                        == "确认计划时缺少计划内容"@,
                },
                PlanAction::Reject => step matches ApprovalStep::Reject { plan_json, response }
                    && plan_json@ == (match p.plan_json {
                    Some(j) => j@,
                    None => "{}"@,
                }) && response@ == (ResponseView::Message {
                    content: "计划已拒绝。请告诉我你希望我如何调整："@ + match req.feedback {
                        Some(f) => f@,
                        None => Seq::<char>::empty(),
                    },
                }),
                PlanAction::Modify => match req.modified_plan {
                    Some(plan) => step matches ApprovalStep::Replan { feedback, previous_plan }
                        && previous_plan@ == plan@ && feedback@ == match req.feedback {
                        Some(f) => f@,
                        None => "请调整计划"@,
                    },
                    None => step matches ApprovalStep::Fail { message } && message@
                        == "修改计划时缺少原计划"@,
                },
            },
        },
{
    let p = match project {
        None => {
            return ApprovalStep::Fail { message: to_owned_string("项目不存在") };
        },
        Some(p) => p,
    };
    match req.action {
        PlanAction::Confirm => match req.modified_plan {
            Some(plan) => ApprovalStep::Execute { plan, session_title: to_owned_string("计划执行") },
            None => ApprovalStep::Fail { message: to_owned_string("确认计划时缺少计划内容") },
        },
        PlanAction::Reject => {
            let plan_json = match &p.plan_json {
                Some(j) => copy_string(j),
                None => to_owned_string("{}"),
            };
            let content = match &req.feedback {
                Some(f) => concat2("计划已拒绝。请告诉我你希望我如何调整：", f.as_str()),
                None => to_owned_string("计划已拒绝。请告诉我你希望我如何调整："),
            };
            proof {
                if req.feedback is None {
                    assert("计划已拒绝。请告诉我你希望我如何调整："@ + Seq::<char>::empty()
                        =~= "计划已拒绝。请告诉我你希望我如何调整："@);
                }
            }
            ApprovalStep::Reject { plan_json, response: AgentResponse::Message { content } }
        },
        PlanAction::Modify => {
            let feedback = match &req.feedback {
                Some(f) => copy_string(f),
                None => to_owned_string("请调整计划"),
            };
            match req.modified_plan {
                Some(plan) => ApprovalStep::Replan { feedback, previous_plan: plan },
                None => ApprovalStep::Fail { message: to_owned_string("修改计划时缺少原计划") },
            }
        },
    }
}

/// What a command the user confirmed leads to.
#[derive(Debug)]
pub enum ConfirmStep {
    /// Run the command in the project directory.
    Run,
    /// Refuse the command without running it, answering with this response.
    Refuse(AgentResponse),
}

/// The answer to a confirmed command that the security policy refuses.
pub open spec fn refusal_view() -> ResponseView {
    ResponseView::Error { message: "该命令已被安全策略阻止"@ }
}

/// Decides whether a command the user confirmed may run: the command is
/// assessed again, and a `Blocked` one is refused and never run, even
/// when confirmed; any other runs.
pub fn confirm_command_step(command: &str) -> (step: ConfirmStep)
    ensures
        (step is Refuse) <==> command_risk(command@) == RiskLevel::Blocked,
        step matches ConfirmStep::Refuse(r) ==> r@ == refusal_view(),
{
    match assess_risk(command) {
        RiskLevel::Blocked => ConfirmStep::Refuse(
            AgentResponse::Error { message: to_owned_string("该命令已被安全策略阻止") },
        ),
        _ => ConfirmStep::Run,
    }
}

/// The response to running a command the user confirmed: its progress
/// with the result when it succeeded, otherwise its error.
pub open spec fn confirmed_command_view(command: Seq<char>, r: ToolView) -> ResponseView {
    if r.0 {
        ResponseView::Progress { step: command, detail: r.1, tool_result: Some(r) }
    } else {
        ResponseView::Error {
            message: match r.2 {
                Some(e) => e,
                None => "命令执行失败"@,
            },
        }
    }
}

/// The response to running a command the user confirmed.
pub fn command_confirmation_response(command: String, result: ToolResult) -> (res: AgentResponse)
    ensures
        res@ == confirmed_command_view(command@, result@),
{
    if result.success {
        let detail = copy_string(&result.output);
        AgentResponse::Progress { step: command, detail, tool_result: Some(result) }
    } else {
        let message = match &result.error {
            Some(e) => copy_string(e),
            None => to_owned_string("命令执行失败"),
        };
        AgentResponse::Error { message }
    }
}

} // verus!
