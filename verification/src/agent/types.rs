//! The agent's data: its conversation context, development plans, the
//! responses it gives, plan approval requests and execution results.
use vstd::prelude::*;
use crate::llm::{chat, messages_view, ChatMessage, ChatMessageView};
use crate::models::{message_text, role_name, Message, Project, ProjectType};
use crate::text::{copy_opt_string, copy_string, opt_str_view, strings_view, to_owned_string};
use crate::tools::{ToolResult, ToolView};

verus! {

// ---------------------------------------------------------------------------
// Context
// ---------------------------------------------------------------------------

/// What the agent knows about the project and conversation it works on.
#[derive(Debug)]
pub struct AgentContext {
    pub project_id: String,
    pub project_path: String,
    pub project_type: ProjectType,
    pub project_name: String,
    pub description: Option<String>,
    pub messages: Vec<Message>,
}

/// The chat message a stored message becomes.
pub open spec fn as_chat(m: Message) -> ChatMessageView {
    chat(role_name(m.role), message_text(m))
}

/// A conversation: the system prompt, then each stored message in order.
pub open spec fn conversation(prompt: Seq<char>, ms: Seq<Message>) -> Seq<ChatMessageView> {
    seq![chat("system"@, prompt)] + ms.map_values(|m: Message| as_chat(m))
}

impl AgentContext {
    /// The context of a project before any message is loaded.
    pub fn for_project(project: &Project) -> (ctx: AgentContext)
        ensures
            ctx.project_id@ == project.id@,
            ctx.project_path@ == project.path@,
            ctx.project_type == project.project_type,
            ctx.project_name@ == project.name@,
            opt_str_view(ctx.description) == opt_str_view(project.description),
            ctx.messages@.len() == 0,
    {
        AgentContext {
            project_id: copy_string(&project.id),
            project_path: copy_string(&project.path),
            project_type: project.project_type,
            project_name: copy_string(&project.name),
            description: copy_opt_string(&project.description),
            messages: Vec::new(),
        }
    }

    /// The conversation to send to the model: the system prompt followed by
    /// the stored messages, each with its role's text form and its content
    /// (or, lacking one, its tool result).
    pub fn to_chat_messages(&self, system_prompt: &str) -> (res: Vec<ChatMessage>)
        ensures
            messages_view(res@) == conversation(system_prompt@, self.messages@),
    {
        let mut msgs: Vec<ChatMessage> = Vec::new();
        msgs.push(ChatMessage::system(to_owned_string(system_prompt)));
        let mut i: usize = 0;
        while i < self.messages.len()
            invariant
                i <= self.messages.len(),
                msgs@.len() == i + 1,
                msgs@[0]@ == chat("system"@, system_prompt@),
                forall|k: int| 0 <= k < i ==> (#[trigger] msgs@[k + 1])@ == as_chat(self.messages@[k]),
            decreases self.messages.len() - i,
        {
            let m = &self.messages[i];
            let role = m.role.to_string();
            let content = m.text();
            msgs.push(ChatMessage { role, content });
            i = i + 1;
        }
        assert(messages_view(msgs@) =~= conversation(system_prompt@, self.messages@)) by {
            assert forall|k: int| 0 <= k < msgs@.len() implies messages_view(msgs@)[k]
                == conversation(system_prompt@, self.messages@)[k] by {
                if k > 0 {
                    assert(msgs@[(k - 1) + 1] == msgs@[k]);
                }
            }
        }
        msgs
    }
}

// ---------------------------------------------------------------------------
// Plans
// ---------------------------------------------------------------------------

/// One stage of a development plan.
#[derive(Debug)]
pub struct PlanStage {
    pub name: String,
    pub description: String,
    pub tasks: Vec<String>,
}

/// A development plan proposed to the user.
#[derive(Debug)]
pub struct DevelopmentPlan {
    pub summary: String,
    pub project_type: ProjectType,
    pub stages: Vec<PlanStage>,
    pub estimated_files: Vec<String>,
    pub dependencies: Vec<String>,
    pub run_commands: Vec<String>,
}

/// A plan stage as plain values.
pub struct StageView {
    pub name: Seq<char>,
    pub description: Seq<char>,
    pub tasks: Seq<Seq<char>>,
}

/// A plan as plain values.
pub struct PlanView {
    pub summary: Seq<char>,
    pub project_type: ProjectType,
    pub stages: Seq<StageView>,
    pub estimated_files: Seq<Seq<char>>,
    pub dependencies: Seq<Seq<char>>,
    pub run_commands: Seq<Seq<char>>,
}

impl View for PlanStage {
    type V = StageView;

    open spec fn view(&self) -> StageView {
        StageView { name: self.name@, description: self.description@, tasks: strings_view(self.tasks@) }
    }
}

impl View for DevelopmentPlan {
    type V = PlanView;

    open spec fn view(&self) -> PlanView {
        PlanView {
            summary: self.summary@,
            project_type: self.project_type,
            stages: self.stages@.map_values(|s: PlanStage| s@),
            estimated_files: strings_view(self.estimated_files@),
            dependencies: strings_view(self.dependencies@),
            run_commands: strings_view(self.run_commands@),
        }
    }
}

// ---------------------------------------------------------------------------
// Responses
// ---------------------------------------------------------------------------

/// The agent's answer to a user action.
#[derive(Debug)]
pub enum AgentResponse {
    /// The requirements need clarifying; these questions are asked.
    Clarification { questions: Vec<String> },
    /// A plan awaits the user's confirmation.
    Plan { plan: DevelopmentPlan },
    /// A plain message.
    Message { content: String },
    /// Progress of the execution.
    Progress { step: String, detail: String, tool_result: Option<ToolResult> },
    /// Execution finished.
    Done { summary: String, next_steps: Vec<String> },
    /// A command awaits the user's confirmation.
    CommandConfirmation { command: String, description: String },
    /// Something failed.
    Error { message: String },
}

/// A response as plain values.
pub enum ResponseView {
    Clarification { questions: Seq<Seq<char>> },
    Plan { plan: PlanView },
    Message { content: Seq<char> },
    Progress { step: Seq<char>, detail: Seq<char>, tool_result: Option<ToolView> },
    Done { summary: Seq<char>, next_steps: Seq<Seq<char>> },
    CommandConfirmation { command: Seq<char>, description: Seq<char> },
    Error { message: Seq<char> },
}

impl View for AgentResponse {
    type V = ResponseView;

    open spec fn view(&self) -> ResponseView {
        match self {
            AgentResponse::Clarification { questions } => ResponseView::Clarification {
                questions: strings_view(questions@),
            },
            AgentResponse::Plan { plan } => ResponseView::Plan { plan: plan@ },
            AgentResponse::Message { content } => ResponseView::Message { content: content@ },
            AgentResponse::Progress { step, detail, tool_result } => ResponseView::Progress {
                step: step@,
                detail: detail@,
                tool_result: match tool_result {
                    Some(t) => Some(t@),
                    None => None,
                },
            },
            AgentResponse::Done { summary, next_steps } => ResponseView::Done {
                summary: summary@,
                next_steps: strings_view(next_steps@),
            },
            AgentResponse::CommandConfirmation { command, description } =>
                ResponseView::CommandConfirmation { command: command@, description: description@ },
            AgentResponse::Error { message } => ResponseView::Error { message: message@ },
        }
    }
}

// ---------------------------------------------------------------------------
// Approval and execution
// ---------------------------------------------------------------------------

/// What the user does with a proposed plan.
#[derive(Debug, Clone, Copy, PartialEq, Eq, Structural)]
pub enum PlanAction {
    Confirm,
    Reject,
    Modify,
}

/// The user's decision on a plan.
#[derive(Debug)]
pub struct PlanApprovalRequest {
    pub project_id: String,
    pub action: PlanAction,
    pub modified_plan: Option<DevelopmentPlan>,
    pub feedback: Option<String>,
}

/// A command held back until the user confirms it.
#[derive(Debug)]
pub struct PendingCommand {
    pub command: String,
    pub description: String,
}

/// A pending command as plain values: command and description.
pub type PendingView = (Seq<char>, Seq<char>);

impl View for PendingCommand {
    type V = PendingView;

    open spec fn view(&self) -> PendingView {
        (self.command@, self.description@)
    }
}

/// The view of an optional pending command.
pub open spec fn opt_pending_view(p: Option<PendingCommand>) -> Option<PendingView> {
    match p {
        Some(c) => Some(c@),
        None => None,
    }
}

/// A tool call carried out during execution, with its result.
#[derive(Debug)]
pub struct ExecutionStep {
    pub description: String,
    pub tool_result: ToolResult,
}

/// An execution step as plain values.
pub type StepView = (Seq<char>, ToolView);

impl View for ExecutionStep {
    type V = StepView;

    open spec fn view(&self) -> StepView {
        (self.description@, self.tool_result@)
    }
}

/// The views of a sequence of steps.
pub open spec fn steps_view(s: Seq<ExecutionStep>) -> Seq<StepView> {
    s.map_values(|e: ExecutionStep| e@)
}

/// The outcome of executing (part of) a plan.
#[derive(Debug)]
pub struct ExecutionResult {
    pub completed_steps: Vec<ExecutionStep>,
    pub pending_command: Option<PendingCommand>,
    pub final_response: AgentResponse,
}

} // verus!
