//! The application's storage: where the database lives, the application
//! state, and the mapping of stored rows to records. Reading and writing
//! the database itself happens around these functions.
use vstd::prelude::*;
use crate::models::{
    parse_plan_status, parse_project_type, parse_role, Message, MessageRole, PlanStatus, Project,
    ProjectType, Session,
};
use crate::text::{concat2, copy_string};

verus! {

/// Where the application's database file lives.
#[derive(Debug)]
pub struct DbConn {
    path: String,
}

impl View for DbConn {
    type V = Seq<char>;

    /// The path of the database file.
    closed spec fn view(&self) -> Seq<char> {
        self.path@
    }
}

impl DbConn {
    /// The database stored at `path`.
    pub fn at(path: String) -> (d: DbConn)
        ensures
            d@ == path@,
    {
        DbConn { path }
    }

    /// The path of the database file.
    pub fn path(&self) -> (p: &str)
        ensures
            p@ == self@,
    {
        self.path.as_str()
    }
}

/// The application's state: its database and the base directory of all
/// projects.
#[derive(Debug)]
pub struct AppState {
    pub db: DbConn,
    pub projects_base_dir: String,
}

// ---------------------------------------------------------------------------
// Timestamps
// ---------------------------------------------------------------------------

/// The first millisecond chrono can represent: January 1 of the year
/// -262143 (262144 BCE), 00:00:00.000 UTC.
pub const CHRONO_MIN_MILLIS: i64 = -8334601228800000i64;

/// The last millisecond chrono can represent: December 31 of the year
/// 262142, 23:59:59.999 UTC.
pub const CHRONO_MAX_MILLIS: i64 = 8210266876799999i64;

/// Whether `DateTime::<Utc>::from_timestamp_millis` accepts a number of
/// milliseconds: it does exactly for the instants between chrono's first
/// and last representable dates (`NaiveDate::MIN` and `NaiveDate::MAX`).
pub open spec fn chrono_accepts_millis(ms: i64) -> bool {
    CHRONO_MIN_MILLIS <= ms <= CHRONO_MAX_MILLIS
}

/// `DateTime::<Utc>::from_timestamp_millis(ms).is_some()`.
#[verifier::external_body]
pub(crate) fn accepts_millis(ms: i64) -> (ok: bool)
    ensures
        ok == chrono_accepts_millis(ms),
{
    chrono::DateTime::from_timestamp_millis(ms).is_some()
}

/// A stored timestamp as a record carries it: the milliseconds when chrono
/// accepts them, otherwise the epoch (chrono's default date).
pub open spec fn stored_time(ms: i64) -> i64 {
    if chrono_accepts_millis(ms) {
        ms
    } else {
        0
    }
}

/// A stored timestamp as a record carries it.
pub fn timestamp_or_epoch(ms: i64) -> (t: i64)
    ensures
        t == stored_time(ms),
{
    if accepts_millis(ms) {
        ms
    } else {
        0
    }
}

// ---------------------------------------------------------------------------
// Rows
// ---------------------------------------------------------------------------

/// A column of a row that does not hold what its record needs: the
/// column's position and the reason.
#[derive(Debug)]
pub struct RowError {
    pub column: usize,
    pub message: String,
}

/// The columns of a stored project.
#[derive(Debug)]
pub struct ProjectRow {
    pub id: String,
    pub name: String,
    pub description: Option<String>,
    pub project_type: String,
    pub path: String,
    pub plan_json: Option<String>,
    pub plan_status: Option<String>,
    pub created_at: i64,
    pub updated_at: i64,
}

/// The columns of a stored session.
#[derive(Debug)]
pub struct SessionRow {
    pub id: String,
    pub project_id: String,
    pub title: Option<String>,
    pub created_at: i64,
    pub updated_at: i64,
}

/// The columns of a stored message.
#[derive(Debug)]
pub struct MessageRow {
    pub id: String,
    pub session_id: String,
    pub role: String,
    pub content: Option<String>,
    pub tool_calls: Option<String>,
    pub tool_result: Option<String>,
    pub metadata: Option<String>,
    pub created_at: i64,
}

/// A stored plan status as a record carries it: the status when the text
/// names one, otherwise none.
pub open spec fn stored_plan_status(s: Option<String>) -> Option<PlanStatus> {
    match s {
        Some(t) => parse_plan_status(t@),
        None => None,
    }
}

/// Operations on stored projects.
pub struct ProjectRepo;

/// Operations on stored sessions.
pub struct SessionRepo;

/// Operations on stored messages.
pub struct MessageRepo;

/// Operations on stored configuration values.
pub struct ConfigRepo;

impl ProjectRepo {
    /// The project a row holds; its type column (the fourth) must name a
    /// project type, an unknown plan status is read as none, and each
    /// timestamp outside chrono's range as the epoch.
    pub fn project_from_row(row: ProjectRow) -> (res: Result<Project, RowError>)
        ensures
            match res {
                Ok(p) => parse_project_type(row.project_type@) == Some(p.project_type) && p.id
                    == row.id && p.name == row.name && p.description == row.description && p.path
                    == row.path && p.plan_json == row.plan_json && p.plan_status
                    == stored_plan_status(row.plan_status) && p.created_at == stored_time(
                    row.created_at,
                ) && p.updated_at == stored_time(row.updated_at),
                Err(e) => parse_project_type(row.project_type@) is None && e.column == 3
                    && e.message@ == "未知的项目类型: "@ + row.project_type@,
            },
    {
        let project_type = match ProjectType::from_str(row.project_type.as_str()) {
            Ok(t) => t,
            Err(message) => {
                return Err(RowError { column: 3, message });
            },
        };
        let plan_status = match &row.plan_status {
            Some(s) => match PlanStatus::from_str(s.as_str()) {
                Ok(p) => Some(p),
                Err(_) => None,
            },
            None => None,
        };
        Ok(Project {
            id: row.id,
            name: row.name,
            description: row.description,
            project_type,
            path: row.path,
            plan_json: row.plan_json,
            plan_status,
            created_at: timestamp_or_epoch(row.created_at),
            updated_at: timestamp_or_epoch(row.updated_at),
        })
    }
}

impl SessionRepo {
    /// The session a row holds, each timestamp outside chrono's range read
    /// as the epoch.
    pub fn session_from_row(row: SessionRow) -> (s: Session)
        ensures
            s.id == row.id && s.project_id == row.project_id && s.title == row.title && s.created_at
                == stored_time(row.created_at) && s.updated_at == stored_time(row.updated_at),
    {
        Session {
            id: row.id,
            project_id: row.project_id,
            title: row.title,
            created_at: timestamp_or_epoch(row.created_at),
            updated_at: timestamp_or_epoch(row.updated_at),
        }
    }
}

impl MessageRepo {
    /// The message a row holds; its role column (the third) must name a
    /// message role, and a timestamp outside chrono's range is read as the
    /// epoch.
    pub fn message_from_row(row: MessageRow) -> (res: Result<Message, RowError>)
        ensures
            match res {
                Ok(m) => parse_role(row.role@) == Some(m.role) && m.id == row.id && m.session_id
                    == row.session_id && m.content == row.content && m.tool_calls == row.tool_calls
                    && m.tool_result == row.tool_result && m.metadata == row.metadata && m.created_at
                    == stored_time(row.created_at),
                Err(e) => parse_role(row.role@) is None && e.column == 2 && e.message@
                    == "未知的消息角色: "@ + row.role@,
            },
    {
        let role = match MessageRole::from_str(row.role.as_str()) {
            Ok(r) => r,
            Err(message) => {
                return Err(RowError { column: 2, message });
            },
        };
        Ok(Message {
            id: row.id,
            session_id: row.session_id,
            role,
            content: row.content,
            tool_calls: row.tool_calls,
            tool_result: row.tool_result,
            metadata: row.metadata,
            created_at: timestamp_or_epoch(row.created_at),
        })
    }
}

} // verus!
