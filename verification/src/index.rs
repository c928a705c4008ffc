//! What the definition index stores for a parsed file.
use vstd::prelude::*;
use crate::parser::{entries_view, fields_view, Field, FieldView, ParsedFile, ParsedView, Signature};
use crate::text::lit;

verus! {

/// The name a signature is stored under.
pub open spec fn spec_signature_name(s: Signature) -> Seq<char> {
    match s {
        Signature::Seg => "Seg"@,
        Signature::Definition8080 => "Definition8080"@,
        Signature::Text => "Text"@,
        Signature::Unknown => "Unknown"@,
    }
}

pub fn signature_name(s: Signature) -> (r: String)
    ensures
        r@ == spec_signature_name(s),
{
    match s {
        Signature::Seg => lit("Seg"),
        Signature::Definition8080 => lit("Definition8080"),
        Signature::Text => lit("Text"),
        Signature::Unknown => lit("Unknown"),
    }
}

/// The field row of a tag identifier.
pub open spec fn tag_row(t: (u64, Seq<char>)) -> FieldView {
    FieldView { kind: "tag_identifier"@, offset: t.0, size: 4, value: Some(t.1) }
}

/// The field rows of a parsed file: its header candidates, then a
/// `tag_identifier` row of size 4 for each tag, then a `type_information`
/// row at offset 4 of size 4 when the type word is known.
pub open spec fn spec_field_rows(p: ParsedView) -> Seq<FieldView> {
    let base = p.fields + p.tag_identifiers.map_values(|t: (u64, Seq<char>)| tag_row(t));
    match p.type_information {
        Some(t) => base.push(FieldView { kind: "type_information"@, offset: 4, size: 4, value: Some(t) }),
        None => base,
    }
}

/// The rows stored in the fields table for `p`.
pub fn field_rows(p: &ParsedFile) -> (rows: Vec<Field>)
    ensures
        fields_view(rows@) == spec_field_rows(p@),
{
    let mut rows: Vec<Field> = Vec::new();
    let nf = p.fields.len();
    for i in 0..nf
        invariant
            nf == p.fields@.len(),
            fields_view(rows@) == fields_view(p.fields@.subrange(0, i as int)),
    {
        let f = p.fields[i].copy();
        let ghost old_rows = rows@;
        rows.push(f);
        assert(fields_view(rows@) == fields_view(old_rows).push(f@));
        assert(p.fields@.subrange(0, i + 1) == p.fields@.subrange(0, i as int).push(p.fields@[i as int]));
    }
    assert(p.fields@.subrange(0, nf as int) == p.fields@);
    let ghost base = fields_view(p.fields@);
    let ghost tags = entries_view(p.tag_identifiers@);
    let nt = p.tag_identifiers.len();
    for i in 0..nt
        invariant
            nt == p.tag_identifiers@.len(),
            base == fields_view(p.fields@),
            tags == entries_view(p.tag_identifiers@),
            fields_view(rows@) == base + tags.subrange(0, i as int).map_values(|t: (u64, Seq<char>)| tag_row(t)),
    {
        let f = Field {
            kind: lit("tag_identifier"),
            offset: p.tag_identifiers[i].0,
            size: 4,
            value: Some(p.tag_identifiers[i].1.clone()),
        };
        let ghost old_rows = rows@;
        rows.push(f);
        assert(fields_view(rows@) == fields_view(old_rows).push(f@));
        assert(tags.subrange(0, i + 1) == tags.subrange(0, i as int).push(tags[i as int]));
    }
    assert(tags.subrange(0, nt as int) == tags);
    match &p.type_information {
        Some(t) => {
            let f = Field { kind: lit("type_information"), offset: 4, size: 4, value: Some(t.clone()) };
            let ghost old_rows = rows@;
            rows.push(f);
            assert(fields_view(rows@) == fields_view(old_rows).push(f@));
        },
        None => {},
    }
    rows
}

/// The index finds a definition by every one of its tags: the stored field
/// rows are the header candidates, unchanged and in order, then one
/// `tag_identifier` row of size 4 for each tag identifier, at its offset and
/// with its text, in order, then a `type_information` row at offset 4 of
/// size 4 when the type word is known, and nothing else.
pub proof fn law_every_tag_gets_an_index_row(p: ParsedView)
    ensures
        spec_field_rows(p).len() == p.fields.len() + p.tag_identifiers.len() + (if p.type_information is Some { 1int } else { 0int }),
        forall|j: int| 0 <= j < p.fields.len() ==> #[trigger] spec_field_rows(p)[j] == p.fields[j],
        forall|j: int| 0 <= j < p.tag_identifiers.len() ==> {
            let r = #[trigger] spec_field_rows(p)[p.fields.len() + j];
            &&& r.kind == "tag_identifier"@
            &&& r.offset == p.tag_identifiers[j].0
            &&& r.size == 4
            &&& r.value == Some(p.tag_identifiers[j].1)
        },
        p.type_information matches Some(t) ==> {
            let r = spec_field_rows(p).last();
            &&& r.kind == "type_information"@
            &&& r.offset == 4
            &&& r.size == 4
            &&& r.value == Some(t)
        },
{
}

} // verus!
