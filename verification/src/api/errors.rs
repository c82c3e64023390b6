//! API errors and the HTTP status each maps to.
use vstd::prelude::*;
use crate::models::error::story_error_text;
use crate::models::StoryError;
use crate::text::{owned, text_eq};

verus! {

/// An error attached to one request field.
#[derive(Debug, Clone)]
pub struct FieldError {
    pub field: String,
    pub message: String,
}

/// An API error: a code, a message and per-field errors.
#[derive(Debug, Clone)]
pub struct ApiError {
    pub code: String,
    pub message: String,
    pub field_errors: Vec<FieldError>,
}

/// The views of a list of field errors: `(field, message)` pairs.
pub open spec fn field_views(v: Seq<FieldError>) -> Seq<(Seq<char>, Seq<char>)> {
    v.map_values(|f: FieldError| (f.field@, f.message@))
}

/// The HTTP status of an error code.
pub open spec fn status_for(code: Seq<char>) -> u16 {
    if code == "not_found"@ {
        404
    } else if code == "validation_error"@ {
        422
    } else if code == "derivation_error"@ {
        500
    } else {
        400
    }
}

impl ApiError {
    /// An error with no field errors.
    pub fn new(code: &str, message: &str) -> (e: Self)
        ensures
            e.code@ == code@,
            e.message@ == message@,
            e.field_errors@.len() == 0,
    {
        ApiError { code: owned(code), message: owned(message), field_errors: Vec::new() }
    }

    /// The same error with one more field error.
    pub fn with_field(self, field: &str, message: &str) -> (e: Self)
        ensures
            e.code == self.code,
            e.message == self.message,
            field_views(e.field_errors@) == field_views(self.field_errors@).push(
                (field@, message@),
            ),
    {
        let mut e = self;
        let ghost before = field_views(e.field_errors@);
        e.field_errors.push(FieldError { field: owned(field), message: owned(message) });
        assert(field_views(e.field_errors@) =~= before.push((field@, message@)));
        e
    }

    /// The API error of a domain error: code `story_error` and the domain
    /// error's message.
    pub fn from_story_error(value: StoryError) -> (e: Self)
        ensures
            e.code@ == "story_error"@,
            e.message@ == story_error_text(value),
            e.field_errors@.len() == 0,
    {
        let message = value.describe();
        ApiError::new("story_error", message.as_str())
    }

    /// The HTTP status of the error: 404 for `not_found`, 422 for
    /// `validation_error`, 500 for `derivation_error`, 400 otherwise.
    pub fn status_code(&self) -> (s: u16)
        ensures
            s == status_for(self.code@),
    {
        let c = self.code.as_str();
        if text_eq(c, "not_found") {
            404
        } else if text_eq(c, "validation_error") {
            422
        } else if text_eq(c, "derivation_error") {
            500
        } else {
            400
        }
    }
}

} // verus!
