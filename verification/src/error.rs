//! The service's error taxonomy and its mapping to an HTTP response:
//! a status code plus a JSON-ready list of `{ message }` details.

use vstd::prelude::*;
use vstd::string::StringExecFns;

verus! {

/// One rule violation found while validating a request: the field that
/// broke a rule and the rule's message, where the rule carries one.
#[derive(Debug)]
pub struct ValidationIssue {
    pub field: String,
    pub message: Option<String>,
}

/// Everything that can go wrong while serving a request, by kind:
/// - `Initialization`: startup configuration is missing or unreadable;
/// - `Validation`: a request payload broke a declared field constraint;
/// - `NotFound`: the requested record does not exist;
/// - `Internal`: a backend, transport or decoding failure.
#[derive(Debug)]
pub enum AppError {
    Initialization(String),
    Validation(Vec<ValidationIssue>),
    NotFound,
    Internal(String),
}

/// One entry of an error response body.
#[derive(Debug)]
pub struct ErrorDetail {
    pub message: String,
}

impl ErrorDetail {
    pub fn new(message: String) -> (d: ErrorDetail)
        ensures
            d.message == message,
    {
        ErrorDetail { message }
    }
}

/// A validation issue as a plain pair: field name and optional rule message.
pub open spec fn issue_view(issue: ValidationIssue) -> (Seq<char>, Option<Seq<char>>) {
    (
        issue.field@,
        match issue.message {
            Some(m) => Some(m@),
            None => None,
        },
    )
}

/// The message of one detail entry for a validation issue.
pub open spec fn issue_message(issue: ValidationIssue) -> Seq<char> {
    match issue.message {
        Some(m) => "Field '"@ + issue.field@ + "' is invalid: "@ + m@,
        None => "Field '"@ + issue.field@ + "' is invalid"@,
    }
}

/// Builds the detail message for one validation issue.
pub fn render_issue(issue: &ValidationIssue) -> (s: String)
    ensures
        s@ == issue_message(*issue),
{
    let mut s = String::from_str("Field '");
    s.append(issue.field.as_str());
    match &issue.message {
        Some(m) => {
            s.append("' is invalid: ");
            s.append(m.as_str());
        },
        None => {
            s.append("' is invalid");
        },
    }
    s
}

/// The rendered issues of a validation error, joined for its one-line
/// text, in order, separated by commas.
pub open spec fn issues_text(issues: Seq<ValidationIssue>) -> Seq<char>
    decreases issues.len(),
{
    if issues.len() == 0 {
        Seq::empty()
    } else if issues.len() == 1 {
        issue_message(issues[0])
    } else {
        issues_text(issues.drop_last()) + ", "@ + issue_message(issues.last())
    }
}

impl AppError {
    /// The HTTP status each error kind maps to.
    pub open spec fn spec_status_code(&self) -> u16 {
        match self {
            AppError::NotFound => 404u16,
            AppError::Validation(_) => 400u16,
            AppError::Initialization(_) => 500u16,
            AppError::Internal(_) => 500u16,
        }
    }

    pub fn status_code(&self) -> (c: u16)
        ensures
            c == self.spec_status_code(),
    {
        match self {
            AppError::NotFound => 404,
            AppError::Validation(_) => 400,
            AppError::Initialization(_) => 500,
            AppError::Internal(_) => 500,
        }
    }

    /// The one-line text of the error. Validation errors never reach a
    /// response body through this text — they are expanded into one
    /// detail per issue instead — but their text still renders every
    /// violated rule.
    pub open spec fn spec_message(&self) -> Seq<char> {
        match self {
            AppError::Initialization(m) => "Failed to initialize app: "@ + m@,
            AppError::Validation(issues) => "Invalid request: "@ + issues_text(issues@),
            AppError::NotFound => "Resource not found"@,
            AppError::Internal(m) => "Internal server error: "@ + m@,
        }
    }

    pub fn message(&self) -> (s: String)
        ensures
            s@ == self.spec_message(),
    {
        match self {
            AppError::Initialization(m) => {
                let mut s = String::from_str("Failed to initialize app: ");
                s.append(m.as_str());
                s
            },
            AppError::Validation(issues) => {
                let mut s = String::from_str("Invalid request: ");
                let mut i: usize = 0;
                while i < issues.len()
                    invariant
                        i <= issues@.len(),
                        s@ == "Invalid request: "@ + issues_text(issues@.take(i as int)),
                    decreases issues@.len() - i,
                {
                    let ghost pre = issues@.take(i as int);
                    let ghost post = issues@.take(i as int + 1);
                    proof {
                        assert(post.drop_last() =~= pre);
                        assert(post.last() == issues@[i as int]);
                    }
                    if i > 0 {
                        s.append(", ");
                    }
                    let rendered = render_issue(&issues[i]);
                    s.append(rendered.as_str());
                    proof {
                        assert(s@ =~= "Invalid request: "@ + issues_text(post));
                    }
                    i = i + 1;
                }
                proof {
                    assert(issues@.take(issues@.len() as int) =~= issues@);
                }
                s
            },
            AppError::NotFound => String::from_str("Resource not found"),
            AppError::Internal(m) => {
                let mut s = String::from_str("Internal server error: ");
                s.append(m.as_str());
                s
            },
        }
    }

    /// The messages of the response body: one per violated rule for a
    /// validation error, exactly one entry for every other kind.
    pub open spec fn spec_details(&self) -> Seq<Seq<char>> {
        match self {
            AppError::Validation(issues) => issues@.map_values(
                |issue: ValidationIssue| issue_message(issue),
            ),
            _ => seq![self.spec_message()],
        }
    }

    /// The status code and body of the HTTP response for this error.
    pub fn error_response(&self) -> (r: (u16, Vec<ErrorDetail>))
        ensures
            r.0 == self.spec_status_code(),
            r.1@.len() == self.spec_details().len(),
            forall|i: int| 0 <= i < r.1@.len() ==> r.1@[i].message@ == self.spec_details()[i],
    {
        let mut details: Vec<ErrorDetail> = Vec::new();
        match self {
            AppError::Validation(issues) => {
                let mut i: usize = 0;
                while i < issues.len()
                    invariant
                        i <= issues.len(),
                        details@.len() == i as int,
                        forall|j: int|
                            0 <= j < i as int ==> details@[j].message@ == issue_message(
                                issues@[j],
                            ),
                    decreases issues.len() - i,
                {
                    details.push(ErrorDetail::new(render_issue(&issues[i])));
                    i = i + 1;
                }
            },
            _ => {
                details.push(ErrorDetail::new(self.message()));
            },
        }
        (self.status_code(), details)
    }
}

} // verus!
