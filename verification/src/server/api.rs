//! What the server answers when a request cannot be met.

use crate::json::{group_json, put, Json, JsonView};
use vstd::prelude::*;

verus! {

broadcast use group_json;

pub const BAD_REQUEST: u16 = 400;

pub const FORBIDDEN: u16 = 403;

pub const NOT_FOUND: u16 = 404;

pub const CONFLICT: u16 = 409;

pub const INTERNAL_SERVER_ERROR: u16 = 500;

/// A refused request: the HTTP status of the answer, and what it says.
#[derive(Debug, PartialEq, Eq)]
pub struct ApiError {
    pub status: u16,
    pub message: String,
}

/// Why a store could not serve a request.
#[derive(Clone, Copy, Debug, PartialEq, Eq, Structural)]
pub enum StoreErrorKind {
    NotFound,
    Invariant,
    Other,
}

/// Why a scheduler of Sessions could not serve a request.
#[derive(Clone, Copy, Debug, PartialEq, Eq, Structural)]
pub enum SchedulerErrorKind {
    Store(StoreErrorKind),
    TerminalSession,
    NotScheduled,
    Other,
}

/// Why a catalog of workflow programs could not serve a request.
#[derive(Clone, Copy, Debug, PartialEq, Eq, Structural)]
pub enum ProgramErrorKind {
    Invalid,
    InvalidFile,
    Duplicate,
    Other,
}

/// Why a runtime of Turns could not serve a request.
#[derive(Clone, Copy, Debug, PartialEq, Eq, Structural)]
pub enum TurnErrorKind {
    Store(StoreErrorKind),
    TerminalTurn,
    Other,
}

/// Why a catalog of skills could not serve a request.
#[derive(Clone, Copy, Debug, PartialEq, Eq, Structural)]
pub enum SkillErrorKind {
    Store(StoreErrorKind),
    NotFound,
    AlreadyExists,
    Invalid,
    Yaml,
}

/// The status for a fault of a store: what is not there is not found, and what a rule of the store
/// forbids is a conflict.
pub open spec fn store_status(kind: StoreErrorKind) -> u16 {
    match kind {
        StoreErrorKind::NotFound => NOT_FOUND,
        StoreErrorKind::Invariant => CONFLICT,
        StoreErrorKind::Other => INTERNAL_SERVER_ERROR,
    }
}

/// The status for a fault of a scheduler.
pub open spec fn scheduler_status(kind: SchedulerErrorKind) -> u16 {
    match kind {
        SchedulerErrorKind::Store(StoreErrorKind::NotFound) => NOT_FOUND,
        SchedulerErrorKind::TerminalSession | SchedulerErrorKind::NotScheduled => CONFLICT,
        _ => INTERNAL_SERVER_ERROR,
    }
}

/// The status for a fault of a catalog of workflow programs.
pub open spec fn program_status(kind: ProgramErrorKind) -> u16 {
    match kind {
        ProgramErrorKind::Invalid | ProgramErrorKind::InvalidFile => BAD_REQUEST,
        ProgramErrorKind::Duplicate => CONFLICT,
        ProgramErrorKind::Other => INTERNAL_SERVER_ERROR,
    }
}

/// The status for a fault of a runtime of Turns.
pub open spec fn turn_status(kind: TurnErrorKind) -> u16 {
    match kind {
        TurnErrorKind::Store(StoreErrorKind::NotFound) => NOT_FOUND,
        TurnErrorKind::Store(StoreErrorKind::Invariant) | TurnErrorKind::TerminalTurn => CONFLICT,
        _ => INTERNAL_SERVER_ERROR,
    }
}

/// The status for a fault of a catalog of skills.
pub open spec fn skill_status(kind: SkillErrorKind) -> u16 {
    match kind {
        SkillErrorKind::Store(fault) => store_status(fault),
        SkillErrorKind::NotFound => NOT_FOUND,
        SkillErrorKind::AlreadyExists => CONFLICT,
        SkillErrorKind::Invalid | SkillErrorKind::Yaml => BAD_REQUEST,
    }
}

impl ApiError {
    /// Whether an answer has a status and a message.
    pub open spec fn says(&self, status: u16, message: Seq<char>) -> bool {
        self.status == status && self.message@ == message
    }

    pub fn bad_request(message: String) -> (r: ApiError)
        ensures
            r.says(BAD_REQUEST, message@),
    {
        ApiError { status: BAD_REQUEST, message }
    }

    pub fn not_found(entity: &str) -> (r: ApiError)
        ensures
            r.says(NOT_FOUND, entity@ + " not found"@),
    {
        let mut message = entity.to_owned();
        message.append(" not found");
        ApiError { status: NOT_FOUND, message }
    }

    pub fn internal(message: String) -> (r: ApiError)
        ensures
            r.says(INTERNAL_SERVER_ERROR, message@),
    {
        ApiError { status: INTERNAL_SERVER_ERROR, message }
    }

    pub fn from_store(kind: StoreErrorKind, message: String) -> (r: ApiError)
        ensures
            r.says(store_status(kind), message@),
    {
        let status = match kind {
            StoreErrorKind::NotFound => NOT_FOUND,
            StoreErrorKind::Invariant => CONFLICT,
            StoreErrorKind::Other => INTERNAL_SERVER_ERROR,
        };
        ApiError { status, message }
    }

    pub fn from_scheduler(kind: SchedulerErrorKind, message: String) -> (r: ApiError)
        ensures
            r.says(scheduler_status(kind), message@),
    {
        let status = match kind {
            SchedulerErrorKind::Store(StoreErrorKind::NotFound) => NOT_FOUND,
            SchedulerErrorKind::TerminalSession | SchedulerErrorKind::NotScheduled => CONFLICT,
            _ => INTERNAL_SERVER_ERROR,
        };
        ApiError { status, message }
    }

    pub fn from_program(kind: ProgramErrorKind, message: String) -> (r: ApiError)
        ensures
            r.says(program_status(kind), message@),
    {
        let status = match kind {
            ProgramErrorKind::Invalid | ProgramErrorKind::InvalidFile => BAD_REQUEST,
            ProgramErrorKind::Duplicate => CONFLICT,
            ProgramErrorKind::Other => INTERNAL_SERVER_ERROR,
        };
        ApiError { status, message }
    }

    pub fn from_turn(kind: TurnErrorKind, message: String) -> (r: ApiError)
        ensures
            r.says(turn_status(kind), message@),
    {
        let status = match kind {
            TurnErrorKind::Store(StoreErrorKind::NotFound) => NOT_FOUND,
            TurnErrorKind::Store(StoreErrorKind::Invariant) | TurnErrorKind::TerminalTurn => CONFLICT,
            _ => INTERNAL_SERVER_ERROR,
        };
        ApiError { status, message }
    }

    pub fn from_skill(kind: SkillErrorKind, message: String) -> (r: ApiError)
        ensures
            r.says(skill_status(kind), message@),
    {
        match kind {
            SkillErrorKind::Store(fault) => ApiError::from_store(fault, message),
            SkillErrorKind::NotFound => ApiError { status: NOT_FOUND, message },
            SkillErrorKind::AlreadyExists => ApiError { status: CONFLICT, message },
            SkillErrorKind::Invalid | SkillErrorKind::Yaml => ApiError {
                status: BAD_REQUEST,
                message,
            },
        }
    }

    /// The body of the answer.
    pub fn body(&self) -> (r: Json)
        ensures
            r@ == error_body(self.message@),
    {
        let mut members: Vec<(String, Json)> = Vec::new();
        put(&mut members, "error", Json::text(self.message.as_str()));
        let r = Json::Object(members);
        assert(r@->Object_0 =~= error_body(self.message@)->Object_0);
        r
    }
}

/// The body of an answer that refuses a request.
pub open spec fn error_body(message: Seq<char>) -> JsonView {
    JsonView::Object(seq![("error"@, JsonView::Text(message))])
}

/// What is said of a text that names nothing of a kind.
pub open spec fn bad_id(value: Seq<char>, kind: Seq<char>) -> Seq<char> {
    "invalid "@ + kind + " id: "@ + value
}

/// An identifier that a request names, as far as the text could be read as one.
pub fn parse_id<T>(parsed: Option<T>, value: &str, kind: &str) -> (r: Result<T, ApiError>)
    ensures
        match r {
            Ok(id) => parsed == Some(id),
            Err(e) => parsed is None && e.says(BAD_REQUEST, bad_id(value@, kind@)),
        },
{
    match parsed {
        Some(id) => Ok(id),
        None => {
            let mut message = "invalid ".to_owned();
            message.append(kind);
            message.append(" id: ");
            message.append(value);
            Err(ApiError::bad_request(message))
        },
    }
}

} // verus!
