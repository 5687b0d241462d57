//! Records kept by the application: projects, sessions and messages, the
//! enumerations stored in them as text, and the requests that create or
//! update them. Timestamps are milliseconds since the Unix epoch.
use vstd::prelude::*;
use crate::text::{concat2, opt_str_view, str_eq, to_owned_string};

verus! {

// ---------------------------------------------------------------------------
// Project type
// ---------------------------------------------------------------------------

/// Kind of project the agent builds.
#[derive(Debug, Clone, Copy, PartialEq, Eq, Structural)]
pub enum ProjectType {
    Desktop,
    Website,
}

/// Text form of a project type.
pub open spec fn project_type_name(t: ProjectType) -> Seq<char> {
    match t {
        ProjectType::Desktop => "desktop"@,
        ProjectType::Website => "website"@,
    }
}

/// Project type named by a text, if any.
pub open spec fn parse_project_type(s: Seq<char>) -> Option<ProjectType> {
    if s == "desktop"@ {
        Some(ProjectType::Desktop)
    } else if s == "website"@ {
        Some(ProjectType::Website)
    } else {
        None
    }
}

impl ProjectType {
    /// Text form (`desktop` or `website`).
    pub fn to_string(&self) -> (s: String)
        ensures
            s@ == project_type_name(*self),
    {
        match self {
            ProjectType::Desktop => to_owned_string("desktop"),
            ProjectType::Website => to_owned_string("website"),
        }
    }

    /// Parses the text form; any other text is refused with a message
    /// naming it.
    pub fn from_str(s: &str) -> (res: Result<ProjectType, String>)
        ensures
            match res {
                Ok(t) => parse_project_type(s@) == Some(t),
                Err(e) => parse_project_type(s@) is None && e@ == "未知的项目类型: "@ + s@,
            },
    {
        if str_eq(s, "desktop") {
            Ok(ProjectType::Desktop)
        } else if str_eq(s, "website") {
            Ok(ProjectType::Website)
        } else {
            Err(concat2("未知的项目类型: ", s))
        }
    }
}

/// Parsing the text form of a project type gives it back, and the text
/// form is the only text that parses to it.
pub proof fn lemma_project_type_round_trip(t: ProjectType, s: Seq<char>)
    ensures
        parse_project_type(project_type_name(t)) == Some(t),
        parse_project_type(s) == Some(t) ==> s == project_type_name(t),
{
    reveal_strlit("desktop");
    reveal_strlit("website");
    assert("desktop"@ != "website"@) by {
        assert("desktop"@[0] != "website"@[0]);
    }
}

// ---------------------------------------------------------------------------
// Plan status
// ---------------------------------------------------------------------------

/// State of a project's development plan.
#[derive(Debug, Clone, Copy, PartialEq, Eq, Structural)]
pub enum PlanStatus {
    Draft,
    Confirmed,
    Rejected,
}

/// Text form of a plan status.
pub open spec fn plan_status_name(p: PlanStatus) -> Seq<char> {
    match p {
        PlanStatus::Draft => "draft"@,
        PlanStatus::Confirmed => "confirmed"@,
        PlanStatus::Rejected => "rejected"@,
    }
}

/// Plan status named by a text, if any.
pub open spec fn parse_plan_status(s: Seq<char>) -> Option<PlanStatus> {
    if s == "draft"@ {
        Some(PlanStatus::Draft)
    } else if s == "confirmed"@ {
        Some(PlanStatus::Confirmed)
    } else if s == "rejected"@ {
        Some(PlanStatus::Rejected)
    } else {
        None
    }
}

impl PlanStatus {
    /// Text form (`draft`, `confirmed` or `rejected`).
    pub fn to_string(&self) -> (s: String)
        ensures
            s@ == plan_status_name(*self),
    {
        match self {
            PlanStatus::Draft => to_owned_string("draft"),
            PlanStatus::Confirmed => to_owned_string("confirmed"),
            PlanStatus::Rejected => to_owned_string("rejected"),
        }
    }

    /// Parses the text form; any other text is refused with a message
    /// naming it.
    pub fn from_str(s: &str) -> (res: Result<PlanStatus, String>)
        ensures
            match res {
                Ok(p) => parse_plan_status(s@) == Some(p),
                Err(e) => parse_plan_status(s@) is None && e@ == "未知的计划状态: "@ + s@,
            },
    {
        if str_eq(s, "draft") {
            Ok(PlanStatus::Draft)
        } else if str_eq(s, "confirmed") {
            Ok(PlanStatus::Confirmed)
        } else if str_eq(s, "rejected") {
            Ok(PlanStatus::Rejected)
        } else {
            Err(concat2("未知的计划状态: ", s))
        }
    }
}

/// Parsing the text form of a plan status gives it back, and the text form
/// is the only text that parses to it.
pub proof fn lemma_plan_status_round_trip(p: PlanStatus, s: Seq<char>)
    ensures
        parse_plan_status(plan_status_name(p)) == Some(p),
        parse_plan_status(s) == Some(p) ==> s == plan_status_name(p),
{
    reveal_strlit("draft");
    reveal_strlit("confirmed");
    reveal_strlit("rejected");
    assert("draft"@ != "confirmed"@) by {
        assert("draft"@.len() != "confirmed"@.len());
    }
    assert("draft"@ != "rejected"@) by {
        assert("draft"@.len() != "rejected"@.len());
    }
    assert("confirmed"@ != "rejected"@) by {
        assert("confirmed"@.len() != "rejected"@.len());
    }
}

// ---------------------------------------------------------------------------
// Message role
// ---------------------------------------------------------------------------

/// Author of a stored message.
#[derive(Debug, Clone, Copy, PartialEq, Eq, Structural)]
pub enum MessageRole {
    System,
    User,
    Assistant,
    Tool,
}

/// Text form of a message role.
pub open spec fn role_name(r: MessageRole) -> Seq<char> {
    match r {
        MessageRole::System => "system"@,
        MessageRole::User => "user"@,
        MessageRole::Assistant => "assistant"@,
        MessageRole::Tool => "tool"@,
    }
}

/// Message role named by a text, if any.
pub open spec fn parse_role(s: Seq<char>) -> Option<MessageRole> {
    if s == "system"@ {
        Some(MessageRole::System)
    } else if s == "user"@ {
        Some(MessageRole::User)
    } else if s == "assistant"@ {
        Some(MessageRole::Assistant)
    } else if s == "tool"@ {
        Some(MessageRole::Tool)
    } else {
        None
    }
}

impl MessageRole {
    /// Text form (`system`, `user`, `assistant` or `tool`).
    pub fn to_string(&self) -> (s: String)
        ensures
            s@ == role_name(*self),
    {
        match self {
            MessageRole::System => to_owned_string("system"),
            MessageRole::User => to_owned_string("user"),
            MessageRole::Assistant => to_owned_string("assistant"),
            MessageRole::Tool => to_owned_string("tool"),
        }
    }

    /// Parses the text form; any other text is refused with a message
    /// naming it.
    pub fn from_str(s: &str) -> (res: Result<MessageRole, String>)
        ensures
            match res {
                Ok(r) => parse_role(s@) == Some(r),
                Err(e) => parse_role(s@) is None && e@ == "未知的消息角色: "@ + s@,
            },
    {
        if str_eq(s, "system") {
            Ok(MessageRole::System)
        } else if str_eq(s, "user") {
            Ok(MessageRole::User)
        } else if str_eq(s, "assistant") {
            Ok(MessageRole::Assistant)
        } else if str_eq(s, "tool") {
            Ok(MessageRole::Tool)
        } else {
            Err(concat2("未知的消息角色: ", s))
        }
    }
}

/// Parsing the text form of a message role gives it back, and the text
/// form is the only text that parses to it.
pub proof fn lemma_role_round_trip(r: MessageRole, s: Seq<char>)
    ensures
        parse_role(role_name(r)) == Some(r),
        parse_role(s) == Some(r) ==> s == role_name(r),
{
    reveal_strlit("system");
    reveal_strlit("user");
    reveal_strlit("assistant");
    reveal_strlit("tool");
    assert("system"@ != "user"@) by {
        assert("system"@.len() != "user"@.len());
    }
    assert("system"@ != "assistant"@) by {
        assert("system"@.len() != "assistant"@.len());
    }
    assert("system"@ != "tool"@) by {
        assert("system"@.len() != "tool"@.len());
    }
    assert("user"@ != "assistant"@) by {
        assert("user"@.len() != "assistant"@.len());
    }
    assert("user"@ != "tool"@) by {
        assert("user"@[0] != "tool"@[0]);
    }
    assert("assistant"@ != "tool"@) by {
        assert("assistant"@.len() != "tool"@.len());
    }
}

// ---------------------------------------------------------------------------
// Records
// ---------------------------------------------------------------------------

/// A project record.
#[derive(Debug)]
pub struct Project {
    pub id: String,
    pub name: String,
    pub description: Option<String>,
    pub project_type: ProjectType,
    pub path: String,
    pub plan_json: Option<String>,
    pub plan_status: Option<PlanStatus>,
    /// Milliseconds since the Unix epoch.
    pub created_at: i64,
    /// Milliseconds since the Unix epoch.
    pub updated_at: i64,
}

/// A chat session of a project.
#[derive(Debug)]
pub struct Session {
    pub id: String,
    pub project_id: String,
    pub title: Option<String>,
    /// Milliseconds since the Unix epoch.
    pub created_at: i64,
    /// Milliseconds since the Unix epoch.
    pub updated_at: i64,
}

/// A stored message of a session.
#[derive(Debug)]
pub struct Message {
    pub id: String,
    pub session_id: String,
    pub role: MessageRole,
    pub content: Option<String>,
    pub tool_calls: Option<String>,
    pub tool_result: Option<String>,
    pub metadata: Option<String>,
    /// Milliseconds since the Unix epoch.
    pub created_at: i64,
}

/// Request to create a project.
#[derive(Debug)]
pub struct CreateProjectRequest {
    pub name: String,
    pub description: Option<String>,
    pub project_type: ProjectType,
}

/// Request to store a project's plan and its status.
#[derive(Debug)]
pub struct UpdatePlanRequest {
    pub project_id: String,
    pub plan_json: String,
    pub plan_status: PlanStatus,
}

/// The text a stored message contributes to a conversation: its content,
/// else its tool result, else nothing.
pub open spec fn message_text(m: Message) -> Seq<char> {
    match m.content {
        Some(c) => c@,
        None => match m.tool_result {
            Some(t) => t@,
            None => Seq::empty(),
        },
    }
}

impl Message {
    /// The text this message contributes to a conversation.
    pub fn text(&self) -> (s: String)
        ensures
            s@ == message_text(*self),
    {
        match &self.content {
            Some(c) => c.clone(),
            None => match &self.tool_result {
                Some(t) => t.clone(),
                None => String::new(),
            },
        }
    }
}

} // verus!
