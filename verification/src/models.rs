//! The user resource: the stored record, its caller-visible shape, and its
//! decoding out of a generic row.
//!
//! Identifiers and timestamps travel in their canonical textual forms; the
//! boundary converts to and from the store's own types.

use vstd::prelude::*;
use crate::errors::AppError;
use crate::row::{cell_of, CellValue, FromRow, Row};

verus! {

/// A stored user row.
#[derive(Debug, Clone, PartialEq, Eq)]
pub struct User {
    pub id: String,
    pub username: String,
    pub email: String,
    pub password_hash: String,
    pub first_name: Option<String>,
    pub last_name: Option<String>,
    pub is_active: bool,
    pub is_verified: bool,
    pub last_login_at: Option<String>,
    pub created_at: String,
    pub created_by: Option<String>,
    pub updated_at: String,
    pub updated_by: Option<String>,
}

/// What a user looks like to callers: everything but the password hash and
/// the audit actors.
#[derive(Debug, Clone, PartialEq, Eq)]
pub struct UserResponse {
    pub id: String,
    pub username: String,
    pub email: String,
    pub first_name: Option<String>,
    pub last_name: Option<String>,
    pub is_active: bool,
    pub is_verified: bool,
    pub last_login_at: Option<String>,
    pub created_at: String,
    pub updated_at: String,
}

impl vstd::std_specs::convert::FromSpecImpl<User> for UserResponse {
    open spec fn obeys_from_spec() -> bool {
        true
    }

    open spec fn from_spec(user: User) -> UserResponse {
        UserResponse {
            id: user.id,
            username: user.username,
            email: user.email,
            first_name: user.first_name,
            last_name: user.last_name,
            is_active: user.is_active,
            is_verified: user.is_verified,
            last_login_at: user.last_login_at,
            created_at: user.created_at,
            updated_at: user.updated_at,
        }
    }
}

impl From<User> for UserResponse {
    /// Drops the password hash and the audit actors, keeping every
    /// caller-visible field.
    fn from(user: User) -> (r: UserResponse) {
        UserResponse {
            id: user.id,
            username: user.username,
            email: user.email,
            first_name: user.first_name,
            last_name: user.last_name,
            is_active: user.is_active,
            is_verified: user.is_verified,
            last_login_at: user.last_login_at,
            created_at: user.created_at,
            updated_at: user.updated_at,
        }
    }
}

/// A required textual column.
pub open spec fn req_text(cells: Seq<(String, CellValue)>, name: Seq<char>) -> Option<String> {
    match cell_of(cells, name) {
        Some(CellValue::Text(s)) => Some(s),
        _ => None,
    }
}

/// A required timestamp column, in textual form.
pub open spec fn req_timestamp(cells: Seq<(String, CellValue)>, name: Seq<char>) -> Option<
    String,
> {
    match cell_of(cells, name) {
        Some(CellValue::Timestamp(s)) => Some(s),
        _ => None,
    }
}

/// A required boolean column.
pub open spec fn req_bool(cells: Seq<(String, CellValue)>, name: Seq<char>) -> Option<bool> {
    match cell_of(cells, name) {
        Some(CellValue::Boolean(b)) => Some(b),
        _ => None,
    }
}

/// An optional textual column: missing or null is absence, any non-textual
/// value a mismatch.
pub open spec fn opt_text(cells: Seq<(String, CellValue)>, name: Seq<char>) -> Option<
    Option<String>,
> {
    match cell_of(cells, name) {
        None => Some(None),
        Some(CellValue::Null) => Some(None),
        Some(CellValue::Text(s)) => Some(Some(s)),
        _ => None,
    }
}

/// An optional timestamp column.
pub open spec fn opt_timestamp(cells: Seq<(String, CellValue)>, name: Seq<char>) -> Option<
    Option<String>,
> {
    match cell_of(cells, name) {
        None => Some(None),
        Some(CellValue::Null) => Some(None),
        Some(CellValue::Timestamp(s)) => Some(Some(s)),
        _ => None,
    }
}

/// Whether a row's cells fit the user record.
pub open spec fn user_row_fits(cells: Seq<(String, CellValue)>) -> bool {
    &&& req_text(cells, "id"@) is Some
    &&& req_text(cells, "username"@) is Some
    &&& req_text(cells, "email"@) is Some
    &&& req_text(cells, "password_hash"@) is Some
    &&& opt_text(cells, "first_name"@) is Some
    &&& opt_text(cells, "last_name"@) is Some
    &&& req_bool(cells, "is_active"@) is Some
    &&& req_bool(cells, "is_verified"@) is Some
    &&& opt_timestamp(cells, "last_login_at"@) is Some
    &&& req_timestamp(cells, "created_at"@) is Some
    &&& opt_text(cells, "created_by"@) is Some
    &&& req_timestamp(cells, "updated_at"@) is Some
    &&& opt_text(cells, "updated_by"@) is Some
}

/// The user a fitting row decodes to.
pub open spec fn user_of_cells(cells: Seq<(String, CellValue)>) -> User {
    User {
        id: req_text(cells, "id"@).unwrap(),
        username: req_text(cells, "username"@).unwrap(),
        email: req_text(cells, "email"@).unwrap(),
        password_hash: req_text(cells, "password_hash"@).unwrap(),
        first_name: opt_text(cells, "first_name"@).unwrap(),
        last_name: opt_text(cells, "last_name"@).unwrap(),
        is_active: req_bool(cells, "is_active"@).unwrap(),
        is_verified: req_bool(cells, "is_verified"@).unwrap(),
        last_login_at: opt_timestamp(cells, "last_login_at"@).unwrap(),
        created_at: req_timestamp(cells, "created_at"@).unwrap(),
        created_by: opt_text(cells, "created_by"@).unwrap(),
        updated_at: req_timestamp(cells, "updated_at"@).unwrap(),
        updated_by: opt_text(cells, "updated_by"@).unwrap(),
    }
}

fn take_req_text(row: &Row, name: &str) -> (r: Result<String, AppError>)
    ensures
        r matches Ok(s) ==> req_text(row.cells@, name@) == Some(s),
        r is Err <==> req_text(row.cells@, name@) is None,
        r matches Err(e) ==> e matches AppError::SerializationError(_),
{
    match row.get(name) {
        Some(CellValue::Text(s)) => Ok(s.clone()),
        _ => Err(AppError::SerializationError("expected a textual column".to_owned())),
    }
}

fn take_req_timestamp(row: &Row, name: &str) -> (r: Result<String, AppError>)
    ensures
        r matches Ok(s) ==> req_timestamp(row.cells@, name@) == Some(s),
        r is Err <==> req_timestamp(row.cells@, name@) is None,
        r matches Err(e) ==> e matches AppError::SerializationError(_),
{
    match row.get(name) {
        Some(CellValue::Timestamp(s)) => Ok(s.clone()),
        _ => Err(AppError::SerializationError("expected a timestamp column".to_owned())),
    }
}

fn take_req_bool(row: &Row, name: &str) -> (r: Result<bool, AppError>)
    ensures
        r matches Ok(b) ==> req_bool(row.cells@, name@) == Some(b),
        r is Err <==> req_bool(row.cells@, name@) is None,
        r matches Err(e) ==> e matches AppError::SerializationError(_),
{
    match row.get(name) {
        Some(CellValue::Boolean(b)) => Ok(*b),
        _ => Err(AppError::SerializationError("expected a boolean column".to_owned())),
    }
}

fn take_opt_text(row: &Row, name: &str) -> (r: Result<Option<String>, AppError>)
    ensures
        r matches Ok(s) ==> opt_text(row.cells@, name@) == Some(s),
        r is Err <==> opt_text(row.cells@, name@) is None,
        r matches Err(e) ==> e matches AppError::SerializationError(_),
{
    match row.get(name) {
        None => Ok(None),
        Some(CellValue::Null) => Ok(None),
        Some(CellValue::Text(s)) => Ok(Some(s.clone())),
        _ => Err(AppError::SerializationError("expected text or null".to_owned())),
    }
}

fn take_opt_timestamp(row: &Row, name: &str) -> (r: Result<Option<String>, AppError>)
    ensures
        r matches Ok(s) ==> opt_timestamp(row.cells@, name@) == Some(s),
        r is Err <==> opt_timestamp(row.cells@, name@) is None,
        r matches Err(e) ==> e matches AppError::SerializationError(_),
{
    match row.get(name) {
        None => Ok(None),
        Some(CellValue::Null) => Ok(None),
        Some(CellValue::Timestamp(s)) => Ok(Some(s.clone())),
        _ => Err(AppError::SerializationError("expected a timestamp or null".to_owned())),
    }
}

impl FromRow for User {
    open spec fn decode_spec(cells: Seq<(String, CellValue)>) -> Option<User> {
        if user_row_fits(cells) {
            Some(user_of_cells(cells))
        } else {
            None
        }
    }

    fn from_row(row: &Row) -> (r: Result<User, AppError>) {
        let id = match take_req_text(row, "id") {
            Ok(v) => v,
            Err(e) => {
                return Err(e);
            },
        };
        let username = match take_req_text(row, "username") {
            Ok(v) => v,
            Err(e) => {
                return Err(e);
            },
        };
        let email = match take_req_text(row, "email") {
            Ok(v) => v,
            Err(e) => {
                return Err(e);
            },
        };
        let password_hash = match take_req_text(row, "password_hash") {
            Ok(v) => v,
            Err(e) => {
                return Err(e);
            },
        };
        let first_name = match take_opt_text(row, "first_name") {
            Ok(v) => v,
            Err(e) => {
                return Err(e);
            },
        };
        let last_name = match take_opt_text(row, "last_name") {
            Ok(v) => v,
            Err(e) => {
                return Err(e);
            },
        };
        let is_active = match take_req_bool(row, "is_active") {
            Ok(v) => v,
            Err(e) => {
                return Err(e);
            },
        };
        let is_verified = match take_req_bool(row, "is_verified") {
            Ok(v) => v,
            Err(e) => {
                return Err(e);
            },
        };
        let last_login_at = match take_opt_timestamp(row, "last_login_at") {
            Ok(v) => v,
            Err(e) => {
                return Err(e);
            },
        };
        let created_at = match take_req_timestamp(row, "created_at") {
            Ok(v) => v,
            Err(e) => {
                return Err(e);
            },
        };
        let created_by = match take_opt_text(row, "created_by") {
            Ok(v) => v,
            Err(e) => {
                return Err(e);
            },
        };
        let updated_at = match take_req_timestamp(row, "updated_at") {
            Ok(v) => v,
            Err(e) => {
                return Err(e);
            },
        };
        let updated_by = match take_opt_text(row, "updated_by") {
            Ok(v) => v,
            Err(e) => {
                return Err(e);
            },
        };
        Ok(
            User {
                id,
                username,
                email,
                password_hash,
                first_name,
                last_name,
                is_active,
                is_verified,
                last_login_at,
                created_at,
                created_by,
                updated_at,
                updated_by,
            },
        )
    }
}

impl User {
    /// Lays the record out as a generic row, each field under its column
    /// name, absent optionals as null.
    pub fn to_row(&self) -> (r: Row)
        ensures
            r.cells@.len() == 13,
            r.cells@[0].0@ == "id"@ && r.cells@[0].1 == CellValue::Text(self.id),
            r.cells@[1].0@ == "username"@ && r.cells@[1].1 == CellValue::Text(self.username),
            r.cells@[2].0@ == "email"@ && r.cells@[2].1 == CellValue::Text(self.email),
            r.cells@[3].0@ == "password_hash"@ && r.cells@[3].1 == CellValue::Text(
                self.password_hash,
            ),
            r.cells@[4].0@ == "first_name"@ && r.cells@[4].1 == opt_text_cell(self.first_name),
            r.cells@[5].0@ == "last_name"@ && r.cells@[5].1 == opt_text_cell(self.last_name),
            r.cells@[6].0@ == "is_active"@ && r.cells@[6].1 == CellValue::Boolean(self.is_active),
            r.cells@[7].0@ == "is_verified"@ && r.cells@[7].1 == CellValue::Boolean(
                self.is_verified,
            ),
            r.cells@[8].0@ == "last_login_at"@ && r.cells@[8].1 == opt_timestamp_cell(
                self.last_login_at,
            ),
            r.cells@[9].0@ == "created_at"@ && r.cells@[9].1 == CellValue::Timestamp(
                self.created_at,
            ),
            r.cells@[10].0@ == "created_by"@ && r.cells@[10].1 == opt_text_cell(self.created_by),
            r.cells@[11].0@ == "updated_at"@ && r.cells@[11].1 == CellValue::Timestamp(
                self.updated_at,
            ),
            r.cells@[12].0@ == "updated_by"@ && r.cells@[12].1 == opt_text_cell(self.updated_by),
    {
        let mut row = Row::new();
        row.push("id".to_owned(), CellValue::Text(self.id.clone()));
        row.push("username".to_owned(), CellValue::Text(self.username.clone()));
        row.push("email".to_owned(), CellValue::Text(self.email.clone()));
        row.push("password_hash".to_owned(), CellValue::Text(self.password_hash.clone()));
        row.push("first_name".to_owned(), opt_text_cell_exec(&self.first_name));
        row.push("last_name".to_owned(), opt_text_cell_exec(&self.last_name));
        row.push("is_active".to_owned(), CellValue::Boolean(self.is_active));
        row.push("is_verified".to_owned(), CellValue::Boolean(self.is_verified));
        row.push("last_login_at".to_owned(), opt_timestamp_cell_exec(&self.last_login_at));
        row.push("created_at".to_owned(), CellValue::Timestamp(self.created_at.clone()));
        row.push("created_by".to_owned(), opt_text_cell_exec(&self.created_by));
        row.push("updated_at".to_owned(), CellValue::Timestamp(self.updated_at.clone()));
        row.push("updated_by".to_owned(), opt_text_cell_exec(&self.updated_by));
        row
    }
}

/// How an optional textual field lies in a row: its text, or null.
pub open spec fn opt_text_cell(v: Option<String>) -> CellValue {
    match v {
        Some(s) => CellValue::Text(s),
        None => CellValue::Null,
    }
}

/// How an optional timestamp field lies in a row: its text, or null.
pub open spec fn opt_timestamp_cell(v: Option<String>) -> CellValue {
    match v {
        Some(s) => CellValue::Timestamp(s),
        None => CellValue::Null,
    }
}

fn opt_text_cell_exec(v: &Option<String>) -> (r: CellValue)
    ensures
        r == opt_text_cell(*v),
{
    match v {
        Some(s) => CellValue::Text(s.clone()),
        None => CellValue::Null,
    }
}

fn opt_timestamp_cell_exec(v: &Option<String>) -> (r: CellValue)
    ensures
        r == opt_timestamp_cell(*v),
{
    match v {
        Some(s) => CellValue::Timestamp(s.clone()),
        None => CellValue::Null,
    }
}

proof fn lemma_cell_of_at(cells: Seq<(String, CellValue)>, name: Seq<char>, j: int)
    requires
        0 <= j < cells.len(),
        cells[j].0@ == name,
        forall|m: int| 0 <= m < j ==> cells[m].0@ != name,
    ensures
        cell_of(cells, name) == Some(cells[j].1),
    decreases cells.len(),
{
    if j > 0 {
        lemma_cell_of_at(cells.drop_first(), name, j - 1);
    }
}

/// Round trip: a record laid out as a row decodes back to the same record,
/// caller-visible fields and all.
pub proof fn lemma_user_row_roundtrip(u: User, cells: Seq<(String, CellValue)>)
    requires
        cells.len() == 13,
        cells[0].0@ == "id"@ && cells[0].1 == CellValue::Text(u.id),
        cells[1].0@ == "username"@ && cells[1].1 == CellValue::Text(u.username),
        cells[2].0@ == "email"@ && cells[2].1 == CellValue::Text(u.email),
        cells[3].0@ == "password_hash"@ && cells[3].1 == CellValue::Text(u.password_hash),
        cells[4].0@ == "first_name"@ && cells[4].1 == opt_text_cell(u.first_name),
        cells[5].0@ == "last_name"@ && cells[5].1 == opt_text_cell(u.last_name),
        cells[6].0@ == "is_active"@ && cells[6].1 == CellValue::Boolean(u.is_active),
        cells[7].0@ == "is_verified"@ && cells[7].1 == CellValue::Boolean(u.is_verified),
        cells[8].0@ == "last_login_at"@ && cells[8].1 == opt_timestamp_cell(u.last_login_at),
        cells[9].0@ == "created_at"@ && cells[9].1 == CellValue::Timestamp(u.created_at),
        cells[10].0@ == "created_by"@ && cells[10].1 == opt_text_cell(u.created_by),
        cells[11].0@ == "updated_at"@ && cells[11].1 == CellValue::Timestamp(u.updated_at),
        cells[12].0@ == "updated_by"@ && cells[12].1 == opt_text_cell(u.updated_by),
    ensures
        User::decode_spec(cells) == Some(u),
{
    reveal_strlit("id");
    reveal_strlit("username");
    reveal_strlit("email");
    reveal_strlit("password_hash");
    reveal_strlit("first_name");
    reveal_strlit("last_name");
    reveal_strlit("is_active");
    reveal_strlit("is_verified");
    reveal_strlit("last_login_at");
    reveal_strlit("created_at");
    reveal_strlit("created_by");
    reveal_strlit("updated_at");
    reveal_strlit("updated_by");
    assert("id"@.len() == 2);
    assert("username"@.len() == 8);
    assert("email"@.len() == 5);
    assert("password_hash"@.len() == 13);
    assert("first_name"@.len() == 10);
    assert("last_name"@.len() == 9);
    assert("is_active"@.len() == 9);
    assert("is_verified"@.len() == 11);
    assert("last_login_at"@.len() == 13);
    assert("created_at"@.len() == 10);
    assert("created_by"@.len() == 10);
    assert("updated_at"@.len() == 10);
    assert("updated_by"@.len() == 10);
    assert("created_at"@[8] == 'a' && "created_by"@[8] == 'b');
    assert("updated_at"@[8] == 'a' && "updated_by"@[8] == 'b');
    assert("created_at"@[0] == 'c' && "updated_at"@[0] == 'u');
    assert("created_by"@[0] == 'c' && "updated_by"@[0] == 'u');
    assert("first_name"@[0] == 'f' && "last_name"@[0] == 'l' && "is_active"@[0] == 'i');
    assert("password_hash"@[0] == 'p' && "last_login_at"@[0] == 'l');
    lemma_cell_of_at(cells, "id"@, 0);
    lemma_cell_of_at(cells, "username"@, 1);
    lemma_cell_of_at(cells, "email"@, 2);
    lemma_cell_of_at(cells, "password_hash"@, 3);
    lemma_cell_of_at(cells, "first_name"@, 4);
    lemma_cell_of_at(cells, "last_name"@, 5);
    lemma_cell_of_at(cells, "is_active"@, 6);
    lemma_cell_of_at(cells, "is_verified"@, 7);
    lemma_cell_of_at(cells, "last_login_at"@, 8);
    lemma_cell_of_at(cells, "created_at"@, 9);
    lemma_cell_of_at(cells, "created_by"@, 10);
    lemma_cell_of_at(cells, "updated_at"@, 11);
    lemma_cell_of_at(cells, "updated_by"@, 12);
    assert(user_row_fits(cells));
    assert(user_of_cells(cells) == u);
}

} // verus!
