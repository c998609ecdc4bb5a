use vstd::prelude::*;
use vstd::string::StringExecFns;

use crate::json::{
    field_lookup, fields_view, find_field, json_object_fields, parse_json_object, FieldV, FieldVal,
};
use crate::record::{EntryV, ScoreEntry};

verus! {

// A submission is valid exactly when the body is a JSON object whose
// "name" member is a string and whose "score" and "level" members are
// unsigned integers within the record's types. No other bound is checked:
// a submission with score 0 or level 0 is deliberately allowed, and extra
// members are ignored.

/// What a body means as a submission: `None` where it is malformed —
/// not a JSON object, a required member missing, of the wrong type, or
/// out of range — and the submitted record otherwise.
pub open spec fn spec_submission(body: Seq<u8>) -> Option<EntryV> {
    match json_object_fields(body) {
        Some(fields) => match (
            field_lookup(fields, "name"@),
            field_lookup(fields, "score"@),
            field_lookup(fields, "level"@),
        ) {
            (Some(FieldV::Text(n)), Some(FieldV::Uint(s)), Some(FieldV::Uint(l))) => {
                if s <= u32::MAX && l <= usize::MAX {
                    Some(EntryV { name: n, score: s as u32, level: l as usize })
                } else {
                    None
                }
            },
            _ => None,
        },
        None => None,
    }
}

/// Validates an inbound body, returning the submitted record exactly on
/// the bodies `spec_submission` accepts.
pub fn parse_submission(body: &[u8]) -> (r: Option<ScoreEntry>)
    ensures
        r matches Some(e) ==> spec_submission(body@) == Some(e@),
        r is None ==> spec_submission(body@) is None,
{
    let fields = match parse_json_object(body) {
        Some(f) => f,
        None => {
            return None;
        },
    };
    let name: String = match find_text(&fields, "name") {
        Some(n) => n,
        None => {
            return None;
        },
    };
    let score_raw: u64 = match find_uint(&fields, "score") {
        Some(u) => u,
        None => {
            return None;
        },
    };
    let level_raw: u64 = match find_uint(&fields, "level") {
        Some(u) => u,
        None => {
            return None;
        },
    };
    if score_raw > u32::MAX as u64 || level_raw > usize::MAX as u64 {
        return None;
    }
    Some(ScoreEntry { name, score: score_raw as u32, level: level_raw as usize })
}

/// The `key` member's text, where that member is a string.
fn find_text(fields: &Vec<(String, FieldVal)>, key: &str) -> (r: Option<String>)
    ensures
        r matches Some(n) ==> field_lookup(fields_view(fields@), key@) == Some(FieldV::Text(n@)),
        r is None ==> !(field_lookup(fields_view(fields@), key@) matches Some(FieldV::Text(_))),
{
    match find_field(fields, &String::from_str(key)) {
        Some(FieldVal::Text(s)) => Some(s.clone()),
        _ => None,
    }
}

/// The `key` member's value, where that member is an unsigned integer.
fn find_uint(fields: &Vec<(String, FieldVal)>, key: &str) -> (r: Option<u64>)
    ensures
        r matches Some(u) ==> field_lookup(fields_view(fields@), key@) == Some(FieldV::Uint(u)),
        r is None ==> !(field_lookup(fields_view(fields@), key@) matches Some(FieldV::Uint(_))),
{
    match find_field(fields, &String::from_str(key)) {
        Some(FieldVal::Uint(u)) => Some(*u),
        _ => None,
    }
}

/// What one request asks the store for: nothing at all, or a read of the
/// whole table, preceded by the write of one fresh record where the
/// submission carried a non-empty name.
pub enum RequestPlan {
    /// The body is malformed; answer with the fixed invalid-input
    /// response and never touch the store.
    Reject,
    /// Serve the leaderboard: write the record first where one is given.
    Serve { write: Option<ScoreEntry> },
}

/// The mathematical value of a [`RequestPlan`].
pub ghost enum PlanV {
    Reject,
    Serve { write: Option<EntryV> },
}

impl View for RequestPlan {
    type V = PlanV;

    open spec fn view(&self) -> PlanV {
        match self {
            RequestPlan::Reject => PlanV::Reject,
            RequestPlan::Serve { write } => PlanV::Serve {
                write: match write {
                    Some(e) => Some(e@),
                    None => None,
                },
            },
        }
    }
}

/// The plan a body calls for: rejection where it is malformed, a pure
/// read where the submitted name is empty, and a write of the submitted
/// record followed by the read otherwise.
pub open spec fn spec_plan(body: Seq<u8>) -> PlanV {
    match spec_submission(body) {
        None => PlanV::Reject,
        Some(e) => PlanV::Serve {
            write: if e.name.len() == 0 {
                None
            } else {
                Some(e)
            },
        },
    }
}

/// Decides, from the body alone, everything the request will do to the
/// store before the store is touched.
pub fn plan_request(body: &[u8]) -> (p: RequestPlan)
    ensures
        p@ == spec_plan(body@),
{
    match parse_submission(body) {
        None => RequestPlan::Reject,
        Some(e) => {
            if e.name.as_str().is_empty() {
                RequestPlan::Serve { write: None }
            } else {
                RequestPlan::Serve { write: Some(e) }
            }
        },
    }
}

} // verus!
