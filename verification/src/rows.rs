use vstd::prelude::*;

use crate::digits::{dec_digits, dec_parsed, format_dec, lemma_dec_round_trip, parse_dec};
use crate::record::{EntryV, ScoreEntry};

verus! {

// The store keeps rows with up to three named attributes; it is schemaless
// beyond that, so a scanned row may lack any of them or hold unparsable
// text. Shaping the scan into the leaderboard drops such rows silently:
// one corrupt row must never fail the whole read.

/// One row as the store hands it back: each attribute present with its
/// text, or missing. A number attribute carries its decimal encoding.
pub struct RawRow {
    pub name: Option<String>,
    pub score: Option<String>,
    pub level: Option<String>,
}

/// The mathematical value of a [`RawRow`].
pub ghost struct RowV {
    pub name: Option<Seq<char>>,
    pub score: Option<Seq<char>>,
    pub level: Option<Seq<char>>,
}

impl View for RawRow {
    type V = RowV;

    open spec fn view(&self) -> RowV {
        RowV {
            name: match self.name {
                Some(s) => Some(s@),
                None => None,
            },
            score: match self.score {
                Some(s) => Some(s@),
                None => None,
            },
            level: match self.level {
                Some(s) => Some(s@),
                None => None,
            },
        }
    }
}

/// What a stored score text reads back as: a decimal number within `u32`.
pub open spec fn spec_parse_score(s: Seq<char>) -> Option<u32> {
    match dec_parsed(s) {
        Some(v) => if v <= u32::MAX {
            Some(v as u32)
        } else {
            None
        },
        None => None,
    }
}

/// What a stored level text reads back as: a decimal number within `usize`.
pub open spec fn spec_parse_level(s: Seq<char>) -> Option<usize> {
    match dec_parsed(s) {
        Some(v) => if v <= usize::MAX {
            Some(v as usize)
        } else {
            None
        },
        None => None,
    }
}

/// Reads a stored score text back.
pub fn parse_score(s: &str) -> (r: Option<u32>)
    ensures
        r == spec_parse_score(s@),
{
    match parse_dec(s, u32::MAX as u64) {
        Some(v) => Some(v as u32),
        None => None,
    }
}

/// Reads a stored level text back.
pub fn parse_level(s: &str) -> (r: Option<usize>)
    ensures
        r == spec_parse_level(s@),
{
    match parse_dec(s, usize::MAX as u64) {
        Some(v) => Some(v as usize),
        None => None,
    }
}

/// What a scanned row contributes to the leaderboard: the record it
/// holds, or nothing where an attribute is missing or unparsable.
pub open spec fn spec_extract(r: RowV) -> Option<EntryV> {
    match (r.name, r.score, r.level) {
        (Some(n), Some(ss), Some(ls)) => match (spec_parse_score(ss), spec_parse_level(ls)) {
            (Some(s), Some(l)) => Some(EntryV { name: n, score: s, level: l }),
            _ => None,
        },
        _ => None,
    }
}

/// Extracts the record a scanned row holds, dropping a malformed row.
pub fn extract_entry(row: &RawRow) -> (r: Option<ScoreEntry>)
    ensures
        r matches Some(e) ==> spec_extract(row@) == Some(e@),
        r is None ==> spec_extract(row@) is None,
{
    let name: String = match &row.name {
        Some(n) => n.clone(),
        None => {
            return None;
        },
    };
    let score: u32 = match &row.score {
        Some(s) => match parse_score(s.as_str()) {
            Some(v) => v,
            None => {
                return None;
            },
        },
        None => {
            return None;
        },
    };
    let level: usize = match &row.level {
        Some(l) => match parse_level(l.as_str()) {
            Some(v) => v,
            None => {
                return None;
            },
        },
        None => {
            return None;
        },
    };
    Some(ScoreEntry { name, score, level })
}

/// The views of a sequence of rows.
pub open spec fn rows_view(rows: Seq<RawRow>) -> Seq<RowV> {
    rows.map_values(|r: RawRow| r@)
}

/// The views of a sequence of records.
pub open spec fn entries_view(es: Seq<ScoreEntry>) -> Seq<EntryV> {
    es.map_values(|e: ScoreEntry| e@)
}

/// The leaderboard a scan shapes into: every well-formed row's record, in
/// scan order, the malformed rows dropped.
pub open spec fn spec_shape(rows: Seq<RowV>) -> Seq<EntryV>
    decreases rows.len(),
{
    if rows.len() == 0 {
        Seq::empty()
    } else {
        let rest = spec_shape(rows.drop_first());
        match spec_extract(rows[0]) {
            Some(e) => seq![e] + rest,
            None => rest,
        }
    }
}

/// One more row at the end of the scan adds its record at the end of the
/// leaderboard — or, malformed, changes nothing at all.
pub proof fn lemma_shape_push(rows: Seq<RowV>, r: RowV)
    ensures
        spec_extract(r) matches Some(e) ==> spec_shape(rows.push(r)) == spec_shape(rows).push(e),
        spec_extract(r) is None ==> spec_shape(rows.push(r)) == spec_shape(rows),
    decreases rows.len(),
{
    if rows.len() == 0 {
        assert(rows.push(r)[0] == r);
        assert(rows.push(r).drop_first() =~= Seq::<RowV>::empty());
        assert(spec_shape(Seq::<RowV>::empty()) == Seq::<EntryV>::empty());
        assert(rows =~= Seq::<RowV>::empty());
        match spec_extract(r) {
            Some(e) => {
                assert(seq![e] + Seq::<EntryV>::empty() =~= spec_shape(rows).push(e));
            },
            None => {},
        }
    } else {
        lemma_shape_push(rows.drop_first(), r);
        assert(rows.push(r)[0] == rows[0]);
        assert(rows.push(r).drop_first() =~= rows.drop_first().push(r));
        match spec_extract(r) {
            Some(e) => {
                match spec_extract(rows[0]) {
                    Some(e0) => {
                        assert(seq![e0] + spec_shape(rows.drop_first()).push(e) =~= (seq![e0]
                            + spec_shape(rows.drop_first())).push(e));
                    },
                    None => {},
                }
            },
            None => {},
        }
    }
}

/// Shapes a scan into the leaderboard, in scan order, dropping every row
/// whose record cannot be read back.
pub fn shape_leaderboard(rows: &Vec<RawRow>) -> (out: Vec<ScoreEntry>)
    ensures
        entries_view(out@) == spec_shape(rows_view(rows@)),
{
    let ghost rv = rows_view(rows@);
    let mut out: Vec<ScoreEntry> = Vec::new();
    proof {
        assert(rv.take(0) =~= Seq::<RowV>::empty());
        assert(entries_view(out@) =~= Seq::<EntryV>::empty());
    }
    let mut i: usize = 0;
    while i < rows.len()
        invariant
            i <= rows.len(),
            rv == rows_view(rows@),
            rv.len() == rows.len(),
            entries_view(out@) == spec_shape(rv.take(i as int)),
        decreases rows.len() - i,
    {
        let ghost out_pre = out@;
        proof {
            assert(rv[i as int] == rows@[i as int]@);
            lemma_shape_push(rv.take(i as int), rv[i as int]);
            assert(rv.take(i as int).push(rv[i as int]) =~= rv.take(i as int + 1));
        }
        match extract_entry(&rows[i]) {
            Some(e) => {
                out.push(e);
                proof {
                    assert(entries_view(out@) =~= entries_view(out_pre).push(e@));
                }
            },
            None => {},
        }
        i = i + 1;
    }
    proof {
        assert(rv.take(rows.len() as int) =~= rv);
    }
    out
}

/// How a record is written: the name as text, the numbers in their
/// canonical decimal spelling, each under its own attribute.
pub open spec fn spec_encode(e: EntryV) -> RowV {
    RowV {
        name: Some(e.name),
        score: Some(dec_digits(e.score as nat)),
        level: Some(dec_digits(e.level as nat)),
    }
}

impl ScoreEntry {
    /// The stored shape of this record.
    pub fn to_row(&self) -> (r: RawRow)
        ensures
            r@ == spec_encode(self@),
    {
        RawRow {
            name: Some(self.name.clone()),
            score: Some(format_dec(self.score as u64)),
            level: Some(format_dec(self.level as u64)),
        }
    }
}

/// Round-trip fidelity of a written record: what the write encodes, the
/// read-back extracts unchanged — never truncated, never reshaped.
pub proof fn lemma_encode_extract(e: EntryV)
    ensures
        spec_extract(spec_encode(e)) == Some(e),
{
    lemma_dec_round_trip(e.score as nat);
    lemma_dec_round_trip(e.level as nat);
}

} // verus!
