use event_sync::api::{
    completion_flag, completion_stamp, failure, internal_error, login_outcome, ok, task_from_request,
    task_from_row, update_outcome, CreateTaskRequest, LoginRequest, TaskRow, UserRow,
    STATUS_INTERNAL_ERROR, STATUS_NOT_FOUND, STATUS_UNAUTHORIZED,
};

fn admin() -> UserRow {
    UserRow {
        id: "00000000-0000-0000-0000-000000000001".to_string(),
        email: "admin@local".to_string(),
        password: "admin".to_string(),
    }
}

#[test]
fn ok_wraps_data() {
    let r = ok(vec![1, 2, 3]);
    assert_eq!(r.data, vec![1, 2, 3]);
    assert!(r.success);
    assert!(r.message.is_none());
}

#[test]
fn login_with_matching_password() {
    let req = LoginRequest { email: "admin@local".to_string(), password: "admin".to_string() };
    let r = login_outcome(&req, Some(admin())).ok().unwrap();
    assert!(r.success);
    assert_eq!(r.data.token, "dev-token-00000000-0000-0000-0000-000000000001");
    assert_eq!(r.data.user.id, "00000000-0000-0000-0000-000000000001");
    assert_eq!(r.data.user.email, "admin@local");
}

#[test]
fn login_with_wrong_password_or_unknown_user() {
    let req = LoginRequest { email: "admin@local".to_string(), password: "nope".to_string() };
    let err = login_outcome(&req, Some(admin())).err().unwrap();
    assert_eq!(err.status, STATUS_UNAUTHORIZED);
    assert_eq!(err.body.message, "Invalid credentials");
    let err = login_outcome(&req, None).err().unwrap();
    assert_eq!(err.status, 401);
    assert_eq!(err.body.message, "Invalid credentials");
}

#[test]
fn failures_carry_status_and_message() {
    let f = failure(418, "teapot");
    assert_eq!(f.status, 418);
    assert_eq!(f.body.message, "teapot");
    let e = internal_error("disk full");
    assert_eq!(e.status, STATUS_INTERNAL_ERROR);
    assert_eq!(e.body.message, "Internal server error: disk full");
}

#[test]
fn completion_helpers() {
    assert_eq!(completion_flag(true), 1);
    assert_eq!(completion_flag(false), 0);
    let now = "2024-01-01T00:00:00+00:00".to_string();
    assert_eq!(completion_stamp(true, &now), Some(now.clone()));
    assert_eq!(completion_stamp(false, &now), None);
    assert!(update_outcome(1).is_ok());
    let err = update_outcome(0).err().unwrap();
    assert_eq!(err.status, STATUS_NOT_FOUND);
    assert_eq!(err.body.message, "Task not found");
}

#[test]
fn task_rows_map_to_dtos() {
    let row = TaskRow {
        id: "t".to_string(),
        list_id: "l".to_string(),
        title: "title".to_string(),
        completed: 2,
        order: 7,
        due_date: Some("2024-02-02".to_string()),
        recurrence: None,
        streak_count: Some(3),
        completed_at: None,
        created_at: "c".to_string(),
        updated_at: "u".to_string(),
    };
    let dto = task_from_row(row);
    assert!(dto.completed);
    assert_eq!(dto.order, 7);
    assert_eq!(dto.due_date.as_deref(), Some("2024-02-02"));
    assert_eq!(dto.streak_count, Some(3));
    assert_eq!(dto.created_at, "c");
    assert_eq!(dto.updated_at, "u");
    let row0 = TaskRow { completed: 0, ..task_row_blank() };
    assert!(!task_from_row(row0).completed);
}

fn task_row_blank() -> TaskRow {
    TaskRow {
        id: String::new(),
        list_id: String::new(),
        title: String::new(),
        completed: 0,
        order: 0,
        due_date: None,
        recurrence: None,
        streak_count: None,
        completed_at: None,
        created_at: String::new(),
        updated_at: String::new(),
    }
}

#[test]
fn created_task_takes_request_fields_and_time() {
    let req = CreateTaskRequest {
        list_id: "l1".to_string(),
        title: "water plants".to_string(),
        completed: false,
        order: 2,
        due_date: None,
        recurrence: Some("daily".to_string()),
        streak_count: None,
        completed_at: None,
    };
    let dto = task_from_request(req, "id1".to_string(), "now".to_string());
    assert_eq!(dto.id, "id1");
    assert_eq!(dto.list_id, "l1");
    assert_eq!(dto.title, "water plants");
    assert!(!dto.completed);
    assert_eq!(dto.order, 2);
    assert_eq!(dto.recurrence.as_deref(), Some("daily"));
    assert_eq!(dto.created_at, "now");
    assert_eq!(dto.updated_at, "now");
}
