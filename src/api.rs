//! Response envelopes and transfer objects of the REST surface, and the
//! decisions the handlers make between their storage reads and writes.
use vstd::prelude::*;
use vstd::string::StringExecFns;

verus! {

pub const STATUS_UNAUTHORIZED: u16 = 401;

pub const STATUS_NOT_FOUND: u16 = 404;

pub const STATUS_INTERNAL_ERROR: u16 = 500;

/// The envelope of every successful response.
pub struct ApiResponse<T> {
    pub data: T,
    pub success: bool,
    pub message: Option<String>,
}

/// The body of a failed response.
pub struct ErrorResponse {
    pub message: String,
}

/// A failed response: its HTTP status and its body.
pub struct Failure {
    pub status: u16,
    pub body: ErrorResponse,
}

pub struct UserDto {
    pub id: String,
    pub email: String,
}

pub struct LoginData {
    pub token: String,
    pub user: UserDto,
}

pub struct LoginRequest {
    pub email: String,
    pub password: String,
}

/// A stored user, as read for a login.
pub struct UserRow {
    pub id: String,
    pub email: String,
    pub password: String,
}

pub struct TaskDto {
    pub id: String,
    pub list_id: String,
    pub title: String,
    pub completed: bool,
    pub order: i64,
    pub due_date: Option<String>,
    pub recurrence: Option<String>,
    pub streak_count: Option<i64>,
    pub completed_at: Option<String>,
    pub created_at: String,
    pub updated_at: String,
}

/// A stored task, as read from its table; `completed` is stored as an integer.
pub struct TaskRow {
    pub id: String,
    pub list_id: String,
    pub title: String,
    pub completed: i64,
    pub order: i64,
    pub due_date: Option<String>,
    pub recurrence: Option<String>,
    pub streak_count: Option<i64>,
    pub completed_at: Option<String>,
    pub created_at: String,
    pub updated_at: String,
}

pub struct CreateTaskRequest {
    pub list_id: String,
    pub title: String,
    pub completed: bool,
    pub order: i64,
    pub due_date: Option<String>,
    pub recurrence: Option<String>,
    pub streak_count: Option<i64>,
    pub completed_at: Option<String>,
}

pub struct CreateTodo {
    pub text: String,
}

/// Wraps `data` in a successful envelope.
pub fn ok<T>(data: T) -> (r: ApiResponse<T>)
    ensures
        r.data == data,
        r.success,
        r.message is None,
{
    ApiResponse { data, success: true, message: None }
}

/// A failed response with `status` and `message`.
pub fn failure(status: u16, message: &str) -> (r: Failure)
    ensures
        r.status == status,
        r.body.message@ == message@,
{
    Failure { status, body: ErrorResponse { message: message.to_owned() } }
}

/// The failure reported for a storage fault, naming the fault.
pub fn internal_error(detail: &str) -> (r: Failure)
    ensures
        r.status == STATUS_INTERNAL_ERROR,
        r.body.message@ == "Internal server error: "@ + detail@,
{
    let message = String::from_str("Internal server error: ").concat(detail);
    Failure { status: STATUS_INTERNAL_ERROR, body: ErrorResponse { message } }
}

/// The outcome of a login, given the user stored under the requested email,
/// if any: the password must match, and the token names the user.
pub fn login_outcome(request: &LoginRequest, row: Option<UserRow>) -> (r: Result<
    ApiResponse<LoginData>,
    Failure,
>)
    ensures
        r is Ok <==> (row is Some && row->0.password@ == request.password@),
        r is Ok ==> ({
            let user = row->0;
            let resp = r->Ok_0;
            &&& resp.success
            &&& resp.message is None
            &&& resp.data.token@ == "dev-token-"@ + user.id@
            &&& resp.data.user.id@ == user.id@
            &&& resp.data.user.email@ == user.email@
        }),
        r is Err ==> r->Err_0.status == STATUS_UNAUTHORIZED && r->Err_0.body.message@
            == "Invalid credentials"@,
{
    match row {
        None => Err(failure(STATUS_UNAUTHORIZED, "Invalid credentials")),
        Some(user) => {
            if request.password != user.password {
                Err(failure(STATUS_UNAUTHORIZED, "Invalid credentials"))
            } else {
                let token = String::from_str("dev-token-").concat(user.id.as_str());
                Ok(ok(LoginData { token, user: UserDto { id: user.id, email: user.email } }))
            }
        },
    }
}

/// The stored integer for a completion flag.
pub fn completion_flag(completed: bool) -> (r: i64)
    ensures
        r == (if completed { 1i64 } else { 0i64 }),
{
    if completed {
        1
    } else {
        0
    }
}

/// The completion time to store when a task's completion is set: `now` when
/// completed, none when reopened.
pub fn completion_stamp(completed: bool, now: &String) -> (r: Option<String>)
    ensures
        completed ==> r is Some && r->0@ == now@,
        !completed ==> r is None,
{
    if completed {
        Some(now.clone())
    } else {
        None
    }
}

/// The outcome of a completion update that touched `rows_affected` rows.
pub fn update_outcome(rows_affected: u64) -> (r: Result<(), Failure>)
    ensures
        r is Ok <==> rows_affected > 0,
        r is Err ==> r->Err_0.status == STATUS_NOT_FOUND && r->Err_0.body.message@
            == "Task not found"@,
{
    if rows_affected == 0 {
        Err(failure(STATUS_NOT_FOUND, "Task not found"))
    } else {
        Ok(())
    }
}

/// The transfer object for a stored task: any non-zero flag is completed.
pub fn task_from_row(row: TaskRow) -> (r: TaskDto)
    ensures
        r.id == row.id,
        r.list_id == row.list_id,
        r.title == row.title,
        r.completed == (row.completed != 0),
        r.order == row.order,
        r.due_date == row.due_date,
        r.recurrence == row.recurrence,
        r.streak_count == row.streak_count,
        r.completed_at == row.completed_at,
        r.created_at == row.created_at,
        r.updated_at == row.updated_at,
{
    TaskDto {
        id: row.id,
        list_id: row.list_id,
        title: row.title,
        completed: row.completed != 0,
        order: row.order,
        due_date: row.due_date,
        recurrence: row.recurrence,
        streak_count: row.streak_count,
        completed_at: row.completed_at,
        created_at: row.created_at,
        updated_at: row.updated_at,
    }
}

/// The transfer object for a task created from `request` under `id` at
/// time `now`, which is both its creation and its update time.
pub fn task_from_request(request: CreateTaskRequest, id: String, now: String) -> (r: TaskDto)
    ensures
        r.id == id,
        r.list_id == request.list_id,
        r.title == request.title,
        r.completed == request.completed,
        r.order == request.order,
        r.due_date == request.due_date,
        r.recurrence == request.recurrence,
        r.streak_count == request.streak_count,
        r.completed_at == request.completed_at,
        r.created_at@ == now@,
        r.updated_at@ == now@,
{
    let updated_at = now.clone();
    TaskDto {
        id,
        list_id: request.list_id,
        title: request.title,
        completed: request.completed,
        order: request.order,
        due_date: request.due_date,
        recurrence: request.recurrence,
        streak_count: request.streak_count,
        completed_at: request.completed_at,
        created_at: now,
        updated_at,
    }
}

} // verus!
