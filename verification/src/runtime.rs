//! Read-only definition access: the records served from the definition
//! index and the normalisation of the hashes they are looked up by. Unknown
//! binary layouts are never reinterpreted.
use vstd::prelude::*;
use crate::text::{
    append_str, ascii_lower, ascii_lower_char, has_hex_prefix, hex_prefixed, is_ascii_text, is_white_space,
    lemma_trimmed, lit, lowercase, to_lowercase, trim, trimmed,
};

verus! {

#[derive(Debug, Clone)]
pub struct Field {
    pub kind: String,
    pub offset: i64,
    pub size: i64,
    pub value: Option<String>,
}

#[derive(Debug, Clone)]
pub struct Reference {
    pub offset: i64,
    pub target_hash: Option<String>,
    pub target_offset: Option<i64>,
}

#[derive(Debug, Clone)]
pub struct Definition {
    pub id: i64,
    pub path: String,
    pub signature: String,
    pub confidence: i64,
    pub sha256: String,
    pub size: i64,
    pub fields: Vec<Field>,
    pub references: Vec<Reference>,
    pub strings: Vec<String>,
}

#[derive(Debug, Clone)]
pub struct RawDefinition {
    pub metadata: Definition,
    pub bytes: Vec<u8>,
}

/// The key a hash is looked up by: trimmed, lower-cased and prefixed with
/// `0x` unless it already is.
pub open spec fn spec_normalize(v: Seq<char>) -> Seq<char> {
    let l = lowercase(trimmed(v));
    if has_hex_prefix(l) {
        l
    } else {
        "0x"@ + l
    }
}

/// The key of an ASCII hash or tag: trimmed, with its capitals lowered,
/// and prefixed with `0x` unless it already is.
pub open spec fn ascii_normalize(v: Seq<char>) -> Seq<char> {
    with_hex_prefix(ascii_lower(trimmed(v)))
}

/// Normalises a hash or tag for lookup: surrounding whitespace is removed,
/// the text is lower-cased, and `0x` is put in front unless it is there.
pub fn normalize(v: &str) -> (r: String)
    ensures
        r@ == spec_normalize(v@),
        is_ascii_text(v@) ==> r@ == ascii_normalize(v@),
{
    let t = trim(v);
    proof {
        lemma_trimmed(v@);
        if is_ascii_text(v@) {
            let (a, b) = choose|a: int, b: int| 0 <= a <= b <= v@.len() && trimmed(v@) == #[trigger] v@.subrange(a, b);
            assert(is_ascii_text(t@)) by {
                assert forall|i: int| 0 <= i < t@.len() implies (#[trigger] t@[i] as u32) < 128 by {
                    assert(t@[i] == v@[a + i]);
                }
            }
        }
    }
    let l = to_lowercase(t.as_str());
    if hex_prefixed(l.as_str()) {
        l
    } else {
        let mut r = lit("0x");
        append_str(&mut r, l.as_str());
        r
    }
}

/// Every normalised key starts with `0x`, and a lower-cased, trimmed key
/// that already has the prefix is left as it is.
pub proof fn law_normalized_keys_are_prefixed(v: Seq<char>)
    ensures
        has_hex_prefix(spec_normalize(v)),
        has_hex_prefix(lowercase(trimmed(v))) ==> spec_normalize(v) == lowercase(trimmed(v)),
{
    reveal_strlit("0x");
}

/// Lowering keeps ASCII text ASCII, keeps its length, keeps whitespace and
/// every other character that is not a capital, and is done once and for all.
proof fn lemma_ascii_lower(s: Seq<char>)
    requires
        is_ascii_text(s),
    ensures
        ascii_lower(s).len() == s.len(),
        is_ascii_text(ascii_lower(s)),
        ascii_lower(ascii_lower(s)) == ascii_lower(s),
        forall|i: int| 0 <= i < s.len() ==> (is_white_space(#[trigger] ascii_lower(s)[i]) <==> is_white_space(s[i])),
        forall|i: int| 0 <= i < s.len() ==> !('A' <= #[trigger] ascii_lower(s)[i] && ascii_lower(s)[i] <= 'Z'),
{
    assert forall|i: int| 0 <= i < s.len() implies (#[trigger] ascii_lower(s)[i] as u32) < 128 by {
        assert((s[i] as u32) < 128);
    }
    assert(ascii_lower(ascii_lower(s)) =~= ascii_lower(s));
}

/// A piece of ASCII text is ASCII.
proof fn lemma_trimmed_ascii(v: Seq<char>)
    requires
        is_ascii_text(v),
    ensures
        is_ascii_text(trimmed(v)),
        trimmed(v).len() > 0 ==> !is_white_space(trimmed(v).last()),
{
    lemma_trimmed(v);
    let t = trimmed(v);
    let (a, b) = choose|a: int, b: int| 0 <= a <= b <= v.len() && trimmed(v) == #[trigger] v.subrange(a, b);
    assert forall|i: int| 0 <= i < t.len() implies (#[trigger] t[i] as u32) < 128 by {
        assert(t[i] == v[a + i]);
    }
}

/// `l` with `0x` put in front unless it is there.
pub open spec fn with_hex_prefix(l: Seq<char>) -> Seq<char> {
    if has_hex_prefix(l) {
        l
    } else {
        "0x"@ + l
    }
}

/// Putting `0x` in front of ASCII text without capitals keeps it so, and
/// the result starts with `0` and ends with `x` or with the text's end.
proof fn lemma_prefix_chars(l: Seq<char>)
    requires
        is_ascii_text(l),
        forall|i: int| 0 <= i < l.len() ==> !('A' <= #[trigger] l[i] && l[i] <= 'Z'),
        l.len() > 0 ==> !is_white_space(l.last()),
    ensures
        is_ascii_text(with_hex_prefix(l)),
        has_hex_prefix(with_hex_prefix(l)),
        forall|i: int| 0 <= i < with_hex_prefix(l).len() ==> !('A' <= #[trigger] with_hex_prefix(l)[i] && with_hex_prefix(l)[i] <= 'Z'),
        !is_white_space(with_hex_prefix(l)[0]),
        !is_white_space(with_hex_prefix(l).last()),
{
    reveal_strlit("0x");
    if !has_hex_prefix(l) {
        let n = "0x"@ + l;
        assert(n[0] == '0' && n[1] == 'x');
        assert forall|i: int| 0 <= i < n.len() implies (#[trigger] n[i] as u32) < 128 && !('A' <= n[i] && n[i] <= 'Z') by {
            if i >= 2 {
                assert(n[i] == l[i - 2]);
            }
        }
        if l.len() > 0 {
            assert(n.last() == l.last());
        }
    }
}

/// The key made of lowered, trimmed ASCII text `l` is ASCII, starts with
/// `0x`, has no capital and no surrounding whitespace.
proof fn lemma_prefixed_key(l: Seq<char>)
    requires
        is_ascii_text(l),
        forall|i: int| 0 <= i < l.len() ==> !('A' <= #[trigger] l[i] && l[i] <= 'Z'),
        l.len() > 0 ==> !is_white_space(l.last()),
    ensures
        is_ascii_text(with_hex_prefix(l)),
        has_hex_prefix(with_hex_prefix(l)),
        forall|i: int| 0 <= i < with_hex_prefix(l).len() ==> !('A' <= #[trigger] with_hex_prefix(l)[i] && with_hex_prefix(l)[i] <= 'Z'),
        trimmed(with_hex_prefix(l)) == with_hex_prefix(l),
        ascii_lower(with_hex_prefix(l)) == with_hex_prefix(l),
{
    lemma_prefix_chars(l);
    let n = with_hex_prefix(l);
    lemma_trimmed(n);
    lemma_lower_without_capitals(n);
}

/// Text without capitals is its own lowering.
proof fn lemma_lower_without_capitals(n: Seq<char>)
    requires
        forall|i: int| 0 <= i < n.len() ==> !('A' <= #[trigger] n[i] && n[i] <= 'Z'),
    ensures
        ascii_lower(n) == n,
{
    assert forall|i: int| 0 <= i < n.len() implies #[trigger] ascii_lower(n)[i] == n[i] by {
        assert(!('A' <= n[i] && n[i] <= 'Z'));
    }
    assert(ascii_lower(n) =~= n);
}

/// On ASCII text, normalisation gives ASCII text that starts with `0x`, has
/// no capital and no surrounding whitespace, and that normalises to itself:
/// normalising twice is normalising once.
pub proof fn law_ascii_normalization_is_idempotent(v: Seq<char>)
    requires
        is_ascii_text(v),
    ensures
        is_ascii_text(ascii_normalize(v)),
        has_hex_prefix(ascii_normalize(v)),
        forall|i: int| 0 <= i < ascii_normalize(v).len() ==> !('A' <= #[trigger] ascii_normalize(v)[i] && ascii_normalize(v)[i] <= 'Z'),
        trimmed(ascii_normalize(v)) == ascii_normalize(v),
        ascii_normalize(ascii_normalize(v)) == ascii_normalize(v),
{
    let t = trimmed(v);
    lemma_trimmed_ascii(v);
    lemma_ascii_lower(t);
    let l = ascii_lower(t);
    if l.len() > 0 {
        assert(!is_white_space(l[l.len() - 1]));
    }
    lemma_prefixed_key(l);
    let n = ascii_normalize(v);
    assert(ascii_lower(trimmed(n)) == n);
}

} // verus!
