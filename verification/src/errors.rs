//! The error taxonomy shared by every operation of the data-access core.
//!
//! Store-level failures are pattern-matched elsewhere and recast into these
//! kinds; everything unmatched degrades to `DatabaseError`.

use vstd::prelude::*;
use vstd::string::StringExecFns;
use crate::strutil::{find_sub, first_match, lemma_first_match_is_match};

verus! {

/// The boundary-safe form of a body-parse failure: a missing field is
/// named, anything else becomes one generic sentence.
pub open spec fn cleaned_error(msg: Seq<char>) -> Seq<char> {
    let a = first_match(msg, "missing field"@);
    if a < 0 {
        "Invalid JSON: Failed to parse request body"@
    } else {
        let rest = msg.skip(a);
        let b = first_match(rest, " at line"@);
        if b >= 0 {
            "Invalid JSON: "@ + rest.take(b)
        } else {
            let q1 = first_match(rest, "`"@);
            if q1 < 0 {
                "Invalid JSON: Failed to parse request body"@
            } else {
                let after = rest.skip(q1 + 1);
                let q2 = first_match(after, "`"@);
                if q2 < 0 {
                    "Invalid JSON: Failed to parse request body"@
                } else {
                    "Invalid JSON: missing field `"@ + after.take(q2) + "`"@
                }
            }
        }
    }
}

/// Extracts the essential part of a body-parse error, exactly as
/// `cleaned_error` describes.
pub fn clean_error_message(error_msg: &str) -> (r: String)
    ensures
        r@ == cleaned_error(error_msg@),
{
    proof {
        reveal_strlit("missing field");
        reveal_strlit(" at line");
        reveal_strlit("`");
    }
    let len = error_msg.unicode_len();
    let a = match find_sub(error_msg, "missing field") {
        None => {
            return String::from_str("Invalid JSON: Failed to parse request body");
        },
        Some(a) => a,
    };
    proof {
        lemma_first_match_is_match(error_msg@, "missing field"@);
    }
    let rest = error_msg.substring_char(a, len);
    let rest_len = rest.unicode_len();
    proof {
        assert(rest@ =~= error_msg@.skip(a as int));
    }
    if let Some(b) = find_sub(rest, " at line") {
        proof {
            lemma_first_match_is_match(rest@, " at line"@);
        }
        let piece = rest.substring_char(0, b);
        let r = String::from_str("Invalid JSON: ").concat(piece);
        proof {
            assert(piece@ =~= rest@.take(b as int));
            assert(r@ =~= cleaned_error(error_msg@));
        }
        return r;
    }
    let q1 = match find_sub(rest, "`") {
        None => {
            return String::from_str("Invalid JSON: Failed to parse request body");
        },
        Some(q1) => q1,
    };
    proof {
        lemma_first_match_is_match(rest@, "`"@);
    }
    let after = rest.substring_char(q1 + 1, rest_len);
    proof {
        assert(after@ =~= rest@.skip(q1 as int + 1));
    }
    let q2 = match find_sub(after, "`") {
        None => {
            return String::from_str("Invalid JSON: Failed to parse request body");
        },
        Some(q2) => q2,
    };
    proof {
        lemma_first_match_is_match(after@, "`"@);
    }
    let name = after.substring_char(0, q2);
    let r = String::from_str("Invalid JSON: missing field `").concat(name).concat("`");
    proof {
        assert(name@ =~= after@.take(q2 as int));
        assert(r@ =~= cleaned_error(error_msg@));
    }
    r
}

/// A typed failure of a data-access operation.
#[derive(Debug, Clone, PartialEq, Eq)]
pub enum AppError {
    /// Malformed input, including an update payload that is empty after
    /// the system-managed columns were stripped.
    BadRequest(String),
    /// The caller presented no acceptable identity.
    Unauthorized,
    /// The addressed row does not exist.
    NotFound { entity: String, id: String },
    /// A unique constraint rejected the write.
    AlreadyExists { entity: String, field: String, value: String },
    /// A referential or domain rule rejected the operation.
    BusinessRule(String),
    /// Any other store failure.
    DatabaseError(String),
    /// A row could not be decoded into the requested result type.
    SerializationError(String),
}

impl AppError {
    /// A missing row of an entity.
    pub fn not_found(entity: &str, id: &str) -> (r: AppError)
        ensures
            r matches AppError::NotFound { entity: e, id: i } && e@ == entity@ && i@ == id@,
    {
        AppError::NotFound { entity: entity.to_owned(), id: id.to_owned() }
    }

    /// A duplicate of a unique field's value.
    pub fn already_exists(entity: &str, field: &str, value: &str) -> (r: AppError)
        ensures
            r matches AppError::AlreadyExists { entity: e, field: f, value: v } && e@ == entity@
                && f@ == field@ && v@ == value@,
    {
        AppError::AlreadyExists {
            entity: entity.to_owned(),
            field: field.to_owned(),
            value: value.to_owned(),
        }
    }

    /// A domain rule rejected the operation.
    pub fn business_rule(message: &str) -> (r: AppError)
        ensures
            r matches AppError::BusinessRule(m) && m@ == message@,
    {
        AppError::BusinessRule(message.to_owned())
    }

    /// A field of the input is unacceptable.
    pub fn invalid_input(field: &str, message: &str) -> (r: AppError)
        ensures
            r matches AppError::BadRequest(m) && m@ == "Invalid "@ + field@ + ": "@ + message@,
    {
        let text = String::from_str("Invalid ").concat(field).concat(": ").concat(message);
        proof {
            assert(text@ =~= "Invalid "@ + field@ + ": "@ + message@);
        }
        AppError::BadRequest(text)
    }

    /// An unexpected failure, surfaced as a store-level error.
    pub fn internal(message: &str) -> (r: AppError)
        ensures
            r matches AppError::DatabaseError(m) && m@ == message@,
    {
        AppError::DatabaseError(message.to_owned())
    }

    /// A stable machine-readable code for each kind.
    pub fn code(&self) -> (r: &'static str)
        ensures
            r@ == self.code_spec(),
    {
        match self {
            AppError::BadRequest(_) => "INVALID_INPUT",
            AppError::Unauthorized => "UNAUTHORIZED",
            AppError::NotFound { .. } => "NOT_FOUND",
            AppError::AlreadyExists { .. } => "ALREADY_EXISTS",
            AppError::BusinessRule(_) => "BUSINESS_RULE_VIOLATION",
            AppError::DatabaseError(_) => "DATABASE_ERROR",
            AppError::SerializationError(_) => "SERIALIZATION_ERROR",
        }
    }

    pub open spec fn code_spec(&self) -> Seq<char> {
        match self {
            AppError::BadRequest(_) => "INVALID_INPUT"@,
            AppError::Unauthorized => "UNAUTHORIZED"@,
            AppError::NotFound { .. } => "NOT_FOUND"@,
            AppError::AlreadyExists { .. } => "ALREADY_EXISTS"@,
            AppError::BusinessRule(_) => "BUSINESS_RULE_VIOLATION"@,
            AppError::DatabaseError(_) => "DATABASE_ERROR"@,
            AppError::SerializationError(_) => "SERIALIZATION_ERROR"@,
        }
    }

    /// The HTTP status that the boundary should answer with.
    pub fn status_code(&self) -> (r: u16)
        ensures
            r == self.status_code_spec(),
    {
        match self {
            AppError::BadRequest(_) => 400,
            AppError::Unauthorized => 401,
            AppError::NotFound { .. } => 404,
            AppError::AlreadyExists { .. } => 409,
            AppError::BusinessRule(_) => 400,
            AppError::DatabaseError(_) => 500,
            AppError::SerializationError(_) => 500,
        }
    }

    /// What `user_message` says for each kind: specific texts carry their
    /// detail, store-level failures hide theirs.
    pub open spec fn user_message_spec(&self) -> Seq<char> {
        match self {
            AppError::BadRequest(m) => m@,
            AppError::Unauthorized => "You must be authenticated to access this resource."@,
            AppError::NotFound { entity, id } => entity@ + " with ID '"@ + id@ + "' not found"@,
            AppError::AlreadyExists { entity, field, value } => entity@ + " with "@ + field@
                + " '"@ + value@ + "' already exists"@,
            AppError::BusinessRule(m) => m@,
            AppError::DatabaseError(_) => "A database error occurred. Please try again later."@,
            AppError::SerializationError(_) =>
                "An internal error occurred. Please try again later."@,
        }
    }

    /// A message fit for the caller, exactly as `user_message_spec`
    /// describes.
    pub fn user_message(&self) -> (r: String)
        ensures
            r@ == self.user_message_spec(),
    {
        match self {
            AppError::BadRequest(m) => m.clone(),
            AppError::Unauthorized => String::from_str(
                "You must be authenticated to access this resource.",
            ),
            AppError::NotFound { entity, id } => {
                let r = entity.clone().concat(" with ID '").concat(id.as_str()).concat(
                    "' not found",
                );
                proof {
                    assert(r@ =~= self.user_message_spec());
                }
                r
            },
            AppError::AlreadyExists { entity, field, value } => {
                let r = entity.clone().concat(" with ").concat(field.as_str()).concat(
                    " '",
                ).concat(value.as_str()).concat("' already exists");
                proof {
                    assert(r@ =~= self.user_message_spec());
                }
                r
            },
            AppError::BusinessRule(m) => m.clone(),
            AppError::DatabaseError(_) => String::from_str(
                "A database error occurred. Please try again later.",
            ),
            AppError::SerializationError(_) => String::from_str(
                "An internal error occurred. Please try again later.",
            ),
        }
    }

    pub open spec fn status_code_spec(&self) -> u16 {
        match self {
            AppError::BadRequest(_) => 400u16,
            AppError::Unauthorized => 401u16,
            AppError::NotFound { .. } => 404u16,
            AppError::AlreadyExists { .. } => 409u16,
            AppError::BusinessRule(_) => 400u16,
            AppError::DatabaseError(_) => 500u16,
            AppError::SerializationError(_) => 500u16,
        }
    }
}

} // verus!
