use vstd::prelude::*;

verus! {

// Submissions arrive as untrusted JSON. Parsing proper is handed to an
// outside parser behind one trusted wrapper; everything the service decides
// about the parsed document — which members it reads, what shapes it
// accepts — is verified code in this crate.

/// One member of a parsed JSON object, as far as this service reads it:
/// a string, an unsigned integer, or anything else.
pub enum FieldVal {
    Text(String),
    Uint(u64),
    Other,
}

/// The mathematical value of a [`FieldVal`].
pub ghost enum FieldV {
    Text(Seq<char>),
    Uint(u64),
    Other,
}

impl View for FieldVal {
    type V = FieldV;

    open spec fn view(&self) -> FieldV {
        match self {
            FieldVal::Text(s) => FieldV::Text(s@),
            FieldVal::Uint(u) => FieldV::Uint(*u),
            FieldVal::Other => FieldV::Other,
        }
    }
}

/// What a body parses to as a JSON object: `None` where the bytes are not a
/// JSON document with an object at top level; otherwise the members in the
/// order the parser hands them out, a string member as text, an
/// unsigned-integer member as a number, any other member as `Other`.
pub uninterp spec fn json_object_fields(body: Seq<u8>) -> Option<Seq<(Seq<char>, FieldV)>>;

/// The view of a member list.
pub open spec fn fields_view(fields: Seq<(String, FieldVal)>) -> Seq<(Seq<char>, FieldV)> {
    fields.map_values(|f: (String, FieldVal)| (f.0@, f.1@))
}

/// Relies on serde_json::from_slice into serde_json::Map: parses the body
/// as a JSON document with an object at top level and hands each member
/// out, telling string members, unsigned-integer members and the rest
/// apart.
#[verifier::external_body]
pub(crate) fn parse_json_object(body: &[u8]) -> (r: Option<Vec<(String, FieldVal)>>)
    ensures
        r matches Some(f) ==> json_object_fields(body@) == Some(fields_view(f@)),
        r is None <==> json_object_fields(body@) is None,
{
    let doc: serde_json::Map<String, serde_json::Value> = serde_json::from_slice(body).ok()?;
    let mut fields = Vec::new();
    for (key, value) in doc {
        let field = match value {
            serde_json::Value::String(s) => FieldVal::Text(s),
            serde_json::Value::Number(n) => match n.as_u64() {
                Some(u) => FieldVal::Uint(u),
                None => FieldVal::Other,
            },
            _ => FieldVal::Other,
        };
        fields.push((key, field));
    }
    Some(fields)
}

/// The first member named `key`, where there is one.
pub open spec fn field_lookup(fields: Seq<(Seq<char>, FieldV)>, key: Seq<char>) -> Option<FieldV>
    decreases fields.len(),
{
    if fields.len() == 0 {
        None
    } else if fields[0].0 == key {
        Some(fields[0].1)
    } else {
        field_lookup(fields.drop_first(), key)
    }
}

/// Finds the member named `key` in a parsed member list.
pub fn find_field<'a>(fields: &'a Vec<(String, FieldVal)>, key: &String) -> (r: Option<
    &'a FieldVal,
>)
    ensures
        r matches Some(v) ==> field_lookup(fields_view(fields@), key@) == Some(v@),
        r is None ==> field_lookup(fields_view(fields@), key@) is None,
{
    let ghost fs = fields_view(fields@);
    proof {
        assert(fs.skip(0) =~= fs);
    }
    let mut i: usize = 0;
    while i < fields.len()
        invariant
            i <= fields.len(),
            fs == fields_view(fields@),
            fs.len() == fields.len(),
            field_lookup(fs.skip(i as int), key@) == field_lookup(fs, key@),
        decreases fields.len() - i,
    {
        proof {
            assert(fs[i as int] == (fields@[i as int].0@, fields@[i as int].1@));
            assert(fs.skip(i as int)[0] == fs[i as int]);
        }
        if fields[i].0.eq(key) {
            return Some(&fields[i].1);
        }
        proof {
            assert(fs.skip(i as int).drop_first() =~= fs.skip(i as int + 1));
        }
        i = i + 1;
    }
    proof {
        assert(fs.skip(fields.len() as int) =~= Seq::<(Seq<char>, FieldV)>::empty());
    }
    None
}

} // verus!
