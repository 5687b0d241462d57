use deepseek_code_agent::db::{
    timestamp_or_epoch, CHRONO_MAX_MILLIS, CHRONO_MIN_MILLIS, AppState, DbConn, MessageRepo, MessageRow, ProjectRepo,
    ProjectRow, SessionRepo, SessionRow,
};
use deepseek_code_agent::models::{MessageRole, PlanStatus, ProjectType};

#[test]
fn project_type_text_round_trip() {
    for t in [ProjectType::Desktop, ProjectType::Website] {
        assert_eq!(ProjectType::from_str(t.to_string().as_str()), Ok(t));
    }
    assert_eq!(ProjectType::Desktop.to_string(), "desktop");
    assert_eq!(ProjectType::Website.to_string(), "website");
    assert_eq!(ProjectType::from_str("Desktop"), Err("未知的项目类型: Desktop".to_string()));
}

#[test]
fn plan_status_text_round_trip() {
    for s in [PlanStatus::Draft, PlanStatus::Confirmed, PlanStatus::Rejected] {
        assert_eq!(PlanStatus::from_str(s.to_string().as_str()), Ok(s));
    }
    assert_eq!(PlanStatus::Confirmed.to_string(), "confirmed");
    assert_eq!(PlanStatus::from_str("done"), Err("未知的计划状态: done".to_string()));
}

#[test]
fn message_role_text_round_trip() {
    for r in [MessageRole::System, MessageRole::User, MessageRole::Assistant, MessageRole::Tool] {
        assert_eq!(MessageRole::from_str(r.to_string().as_str()), Ok(r));
    }
    assert_eq!(MessageRole::Assistant.to_string(), "assistant");
    assert_eq!(MessageRole::from_str(""), Err("未知的消息角色: ".to_string()));
}

#[test]
fn timestamps_outside_chrono_range_become_epoch() {
    assert_eq!(timestamp_or_epoch(1_700_000_000_000), 1_700_000_000_000);
    assert_eq!(timestamp_or_epoch(-5), -5);
    assert_eq!(timestamp_or_epoch(i64::MAX), 0);
    assert_eq!(timestamp_or_epoch(i64::MIN), 0);
    assert_eq!(timestamp_or_epoch(CHRONO_MAX_MILLIS), CHRONO_MAX_MILLIS);
    assert_eq!(timestamp_or_epoch(CHRONO_MAX_MILLIS + 1), 0);
    assert_eq!(timestamp_or_epoch(CHRONO_MIN_MILLIS), CHRONO_MIN_MILLIS);
    assert_eq!(timestamp_or_epoch(CHRONO_MIN_MILLIS - 1), 0);
}

fn project_row(t: &str, status: Option<&str>) -> ProjectRow {
    ProjectRow {
        id: "id1".to_string(),
        name: "todo".to_string(),
        description: Some("d".to_string()),
        project_type: t.to_string(),
        path: "/p".to_string(),
        plan_json: None,
        plan_status: status.map(|s| s.to_string()),
        created_at: 1000,
        updated_at: i64::MAX,
    }
}

#[test]
fn project_rows_map_to_projects() {
    let p = ProjectRepo::project_from_row(project_row("website", Some("confirmed"))).unwrap();
    assert_eq!(p.project_type, ProjectType::Website);
    assert_eq!(p.plan_status, Some(PlanStatus::Confirmed));
    assert_eq!(p.created_at, 1000);
    assert_eq!(p.updated_at, 0);
    assert_eq!(p.id, "id1");
    let p = ProjectRepo::project_from_row(project_row("desktop", Some("unknown"))).unwrap();
    assert_eq!(p.plan_status, None);
    let e = ProjectRepo::project_from_row(project_row("mobile", None)).unwrap_err();
    assert_eq!(e.column, 3);
    assert_eq!(e.message, "未知的项目类型: mobile");
}

#[test]
fn session_and_message_rows_map_to_records() {
    let s = SessionRepo::session_from_row(SessionRow {
        id: "s".to_string(),
        project_id: "p".to_string(),
        title: Some("计划执行".to_string()),
        created_at: 5,
        updated_at: 6,
    });
    assert_eq!((s.created_at, s.updated_at), (5, 6));
    assert_eq!(s.title.as_deref(), Some("计划执行"));
    let row = |role: &str| MessageRow {
        id: "m".to_string(),
        session_id: "s".to_string(),
        role: role.to_string(),
        content: Some("c".to_string()),
        tool_calls: None,
        tool_result: None,
        metadata: Some("{}".to_string()),
        created_at: 9,
    };
    let m = MessageRepo::message_from_row(row("tool")).unwrap();
    assert_eq!(m.role, MessageRole::Tool);
    assert_eq!(m.text(), "c");
    let e = MessageRepo::message_from_row(row("robot")).unwrap_err();
    assert_eq!(e.column, 2);
    assert_eq!(e.message, "未知的消息角色: robot");
}

#[test]
fn app_state_holds_database_and_projects_dir() {
    let st = AppState { db: DbConn::at("/data/app.db".to_string()), projects_base_dir: "/home/u/DeepSeekCodeAgentProjects".to_string() };
    assert_eq!(st.db.path(), "/data/app.db");
    assert_eq!(st.projects_base_dir, "/home/u/DeepSeekCodeAgentProjects");
}
