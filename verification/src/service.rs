use vstd::prelude::*;
use vstd::string::StringExecFns;

use crate::record::{EntryV, ScoreEntry};
use crate::rows::{
    entries_view, lemma_encode_extract, lemma_shape_push, rows_view, shape_leaderboard,
    spec_encode, spec_extract, spec_shape, RawRow, RowV,
};
use crate::submission::{plan_request, spec_plan, spec_submission, PlanV, RequestPlan};

verus! {

// One request, end to end: parse and validate the body, write one fresh
// record where the submission carries a non-empty name, read the whole
// table back, and shape it into the leaderboard. The write is the only
// state mutation, at most once per request; the read never creates,
// copies or prunes records.

/// The one environment-provided setting: which backing table to read and
/// write. Built once at process start and passed into the handler, never
/// read ad hoc mid-request.
pub struct Config {
    pub table_name: String,
}

/// The fallback table name, used where no name is configured: a
/// deliberate soft-degrade that trades correctness — writing to an
/// unintended table — for availability.
pub open spec fn default_table_name() -> Seq<char> {
    "default_table"@
}

impl Config {
    /// Builds the configuration from the environment-provided table
    /// name, where one is set.
    pub fn new(table_name: Option<String>) -> (c: Config)
        ensures
            c.table_name@ == match table_name {
                Some(t) => t@,
                None => default_table_name(),
            },
    {
        match table_name {
            Some(t) => Config { table_name: t },
            None => Config { table_name: String::from_str("default_table") },
        }
    }
}

/// The store contents after one request: one fresh row appended where
/// the plan carries a write, the store untouched otherwise. No existing
/// row is ever updated or deleted.
pub open spec fn spec_store_after(store: Seq<RowV>, body: Seq<u8>) -> Seq<RowV> {
    match spec_plan(body) {
        PlanV::Serve { write: Some(e) } => store.push(spec_encode(e)),
        _ => store,
    }
}

/// The answer to one request against a given store state: `None` for the
/// fixed invalid-input response, otherwise the full leaderboard shaped
/// from the store as the request leaves it.
pub open spec fn spec_response(store: Seq<RowV>, body: Seq<u8>) -> Option<Seq<EntryV>> {
    match spec_plan(body) {
        PlanV::Reject => None,
        PlanV::Serve { write } => Some(spec_shape(spec_store_after(store, body))),
    }
}

/// One whole request played against a snapshot of the table, the store
/// client's effects modeled by the vector: the conditional write, the
/// full read-back, and the shaping. `None` is the invalid-input answer.
pub fn handle_request(store: &mut Vec<RawRow>, body: &[u8]) -> (r: Option<Vec<ScoreEntry>>)
    ensures
        rows_view(final(store)@) == spec_store_after(rows_view(old(store)@), body@),
        r matches Some(out) ==> spec_response(rows_view(old(store)@), body@) == Some(
            entries_view(out@),
        ),
        r is None ==> spec_response(rows_view(old(store)@), body@) is None,
{
    match plan_request(body) {
        RequestPlan::Reject => None,
        RequestPlan::Serve { write } => {
            match write {
                Some(e) => {
                    let row = e.to_row();
                    let ghost pre = store@;
                    store.push(row);
                    proof {
                        assert(rows_view(store@) =~= rows_view(pre).push(row@));
                    }
                },
                None => {},
            }
            Some(shape_leaderboard(store))
        },
    }
}

/// Round-trip fidelity of a valid submission with a non-empty name: the
/// request appends exactly one row, and the leaderboard it answers with
/// is the prior one with the submitted record at its end, read back
/// exactly as submitted.
pub proof fn lemma_submission_recorded(store: Seq<RowV>, body: Seq<u8>, e: EntryV)
    requires
        spec_submission(body) == Some(e),
        e.name.len() > 0,
    ensures
        spec_store_after(store, body) == store.push(spec_encode(e)),
        spec_response(store, body) == Some(spec_shape(store).push(e)),
{
    lemma_encode_extract(e);
    lemma_shape_push(store, spec_encode(e));
}

/// A submission with an empty name writes nothing: the store is
/// unchanged and the answer still carries the full existing leaderboard.
pub proof fn lemma_empty_name_pure_read(store: Seq<RowV>, body: Seq<u8>, e: EntryV)
    requires
        spec_submission(body) == Some(e),
        e.name.len() == 0,
    ensures
        spec_store_after(store, body) == store,
        spec_response(store, body) == Some(spec_shape(store)),
{
}

/// A malformed body is answered with the invalid-input response, and the
/// store is never written.
pub proof fn lemma_malformed_rejected(store: Seq<RowV>, body: Seq<u8>)
    requires
        spec_submission(body) is None,
    ensures
        spec_store_after(store, body) == store,
        spec_response(store, body) is None,
{
}

/// Idempotence of reads: two consecutive empty-name submissions against
/// an unchanged store leave it unchanged and answer with identical
/// leaderboard contents.
pub proof fn lemma_reads_idempotent(store: Seq<RowV>, body1: Seq<u8>, body2: Seq<u8>, e1: EntryV, e2: EntryV)
    requires
        spec_submission(body1) == Some(e1),
        e1.name.len() == 0,
        spec_submission(body2) == Some(e2),
        e2.name.len() == 0,
    ensures
        spec_store_after(store, body1) == store,
        spec_store_after(spec_store_after(store, body1), body2) == store,
        spec_response(store, body1) == spec_response(spec_store_after(store, body1), body2),
{
}

/// A stored row missing an attribute, or holding unparsable text, is
/// excluded from the response without failing it: the leaderboard is as
/// if the row were not there.
pub proof fn lemma_malformed_row_excluded(store: Seq<RowV>, r: RowV)
    requires
        spec_extract(r) is None,
    ensures
        spec_shape(store.push(r)) == spec_shape(store),
{
    lemma_shape_push(store, r);
}

} // verus!
