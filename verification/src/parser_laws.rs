//! Properties of what the parser records, over its specification.
use vstd::prelude::*;
use crate::parser::{
    be_word, header_candidates, header_field, header_has_tag, header_words, hex_references,
    is_hex_reference, late_tags, le_word, run_entry, scan, scan_step, spec_detect_signature,
    spec_extract_strings, spec_is_tag_hash, spec_parse_bytes, string_runs, tag_entry,
    tag_identifiers, Signature,
};
use crate::text::{bytes_chars, hex_lower, is_ascii_space, is_graphic, is_printable};

verus! {

/// A maximal run of printable bytes, at least four long, from `r.0` up to
/// `r.1`: the bytes around it are not printable, or are the ends of the input.
pub open spec fn is_string_run(b: Seq<u8>, r: (int, int)) -> bool {
    &&& 0 <= r.0
    &&& r.0 + 4 <= r.1
    &&& r.1 <= b.len()
    &&& forall|k: int| r.0 <= k < r.1 ==> #[trigger] is_printable(b[k])
    &&& (r.0 == 0 || !is_printable(b[r.0 - 1]))
    &&& (r.1 == b.len() || !is_printable(b[r.1]))
}

/// Each run ends before the next one starts.
pub open spec fn runs_ordered(runs: Seq<(int, int)>) -> bool {
    forall|j: int| 0 <= j && j + 1 < runs.len() ==> #[trigger] runs[j].1 < runs[j + 1].0
}

pub open spec fn scan_invariant(b: Seq<u8>, i: int) -> bool {
    let st = scan(b, i);
    let runs = st.0;
    &&& forall|j: int| 0 <= j < runs.len() ==> is_string_run(b, #[trigger] runs[j]) && runs[j].1 < i
    &&& runs_ordered(runs)
    &&& match st.1 {
        Some(s) => {
            &&& 0 <= s < i
            &&& forall|k: int| s <= k < i ==> #[trigger] is_printable(b[k])
            &&& (s == 0 || !is_printable(b[s - 1]))
            &&& (runs.len() > 0 ==> runs.last().1 < s)
        },
        None => i == 0 || !is_printable(b[i - 1]),
    }
    &&& forall|r: (int, int)| is_string_run(b, r) && r.1 < i ==> runs.contains(r)
    &&& forall|r: (int, int)| is_string_run(b, r) && r.0 < i <= r.1 ==> st.1 == Some(r.0)
}

proof fn lemma_scan_invariant(b: Seq<u8>, i: int)
    requires
        0 <= i <= b.len(),
    ensures
        scan_invariant(b, i),
    decreases i,
{
    if i > 0 {
        lemma_scan_invariant(b, i - 1);
        let prev = scan(b, i - 1);
        let cur = scan(b, i);
        let p = is_printable(b[i - 1]);
        assert(cur == scan_step(prev.0, prev.1, i - 1, p));
        let runs = cur.0;
        if !p {
            if let Some(s) = prev.1 {
                if i - 1 - s >= 4 {
                    assert(runs == prev.0.push((s, i - 1)));
                    assert(is_string_run(b, (s, i - 1)));
                    assert forall|j: int| 0 <= j < runs.len() implies is_string_run(b, #[trigger] runs[j]) && runs[j].1 < i by {
                        if j < prev.0.len() {
                            assert(runs[j] == prev.0[j]);
                        }
                    }
                    assert(runs_ordered(runs)) by {
                        assert forall|j: int| 0 <= j && j + 1 < runs.len() implies #[trigger] runs[j].1 < runs[j + 1].0 by {
                            if j + 1 < prev.0.len() {
                                assert(runs[j] == prev.0[j]);
                                assert(runs[j + 1] == prev.0[j + 1]);
                            } else {
                                assert(runs[j] == prev.0.last());
                            }
                        }
                    }
                    assert forall|r: (int, int)| is_string_run(b, r) && r.1 < i implies runs.contains(r) by {
                        if r.1 < i - 1 {
                            assert(prev.0.contains(r));
                            let j = choose|j: int| 0 <= j < prev.0.len() && prev.0[j] == r;
                            assert(runs[j] == r);
                        } else {
                            assert(prev.1 == Some(r.0));
                            assert(runs[runs.len() - 1] == r);
                        }
                    }
                } else {
                    assert(runs == prev.0);
                    assert forall|r: (int, int)| is_string_run(b, r) && r.1 < i implies runs.contains(r) by {
                        if r.1 == i - 1 {
                            assert(prev.1 == Some(r.0));
                        }
                    }
                }
                assert forall|r: (int, int)| is_string_run(b, r) && r.0 < i <= r.1 implies cur.1 == Some(r.0) by {
                    assert(is_printable(b[i - 1]));
                }
            } else {
                assert(runs == prev.0);
                assert forall|r: (int, int)| is_string_run(b, r) && r.1 < i implies runs.contains(r) by {
                    if r.1 == i - 1 {
                        assert(r.0 < i - 1 <= r.1);
                    }
                }
                assert forall|r: (int, int)| is_string_run(b, r) && r.0 < i <= r.1 implies cur.1 == Some(r.0) by {
                    assert(is_printable(b[i - 1]));
                }
            }
        } else {
            assert(runs == prev.0);
            assert forall|r: (int, int)| is_string_run(b, r) && r.1 < i implies runs.contains(r) by {
                if r.1 == i - 1 {
                    assert(!is_printable(b[r.1]));
                }
            }
            if let Some(s) = prev.1 {
                assert forall|k: int| s <= k < i implies #[trigger] is_printable(b[k]) by {
                    if k < i - 1 {
                    }
                }
                assert forall|r: (int, int)| is_string_run(b, r) && r.0 < i <= r.1 implies cur.1 == Some(r.0) by {
                    if r.0 < i - 1 {
                        assert(prev.1 == Some(r.0));
                    } else {
                        assert(r.0 == i - 1);
                        assert(is_printable(b[s]));
                        if s < r.0 {
                            assert(is_printable(b[r.0 - 1]));
                        }
                    }
                }
            } else {
                assert forall|r: (int, int)| is_string_run(b, r) && r.0 < i <= r.1 implies cur.1 == Some(r.0) by {
                    if r.0 < i - 1 {
                        assert(is_printable(b[i - 2]));
                    }
                }
            }
        }
    }
}

/// The strings the parser extracts are exactly the maximal runs of
/// printable bytes (graphic, space or tab) at least four bytes long, in
/// order of their offsets, each given with its offset and its bytes read as
/// ASCII.
pub proof fn law_strings_are_printable_runs(b: Seq<u8>)
    ensures
        forall|j: int| 0 <= j < string_runs(b).len() ==> is_string_run(b, #[trigger] string_runs(b)[j]),
        runs_ordered(string_runs(b)),
        forall|r: (int, int)| is_string_run(b, r) ==> string_runs(b).contains(r),
        spec_extract_strings(b).len() == string_runs(b).len(),
        forall|j: int| 0 <= j < string_runs(b).len() ==> #[trigger] spec_extract_strings(b)[j]
            == (string_runs(b)[j].0 as u64, bytes_chars(b.subrange(string_runs(b)[j].0, string_runs(b)[j].1))),
{
    let n = b.len() as int;
    lemma_scan_invariant(b, n);
    let st = scan(b, n);
    let runs = string_runs(b);
    assert(runs == scan_step(st.0, st.1, n, false).0);
    if let Some(s) = st.1 {
        if n - s >= 4 {
            assert(runs == st.0.push((s, n)));
            assert(is_string_run(b, (s, n)));
            assert forall|j: int| 0 <= j < runs.len() implies is_string_run(b, #[trigger] runs[j]) by {
                if j < st.0.len() {
                    assert(runs[j] == st.0[j]);
                }
            }
            assert(runs_ordered(runs)) by {
                assert forall|j: int| 0 <= j && j + 1 < runs.len() implies #[trigger] runs[j].1 < runs[j + 1].0 by {
                    if j + 1 < st.0.len() {
                        assert(runs[j] == st.0[j]);
                        assert(runs[j + 1] == st.0[j + 1]);
                    } else {
                        assert(runs[j] == st.0.last());
                    }
                }
            }
            assert forall|r: (int, int)| is_string_run(b, r) implies runs.contains(r) by {
                if r.1 < n {
                    assert(st.0.contains(r));
                    let j = choose|j: int| 0 <= j < st.0.len() && st.0[j] == r;
                    assert(runs[j] == r);
                } else {
                    assert(st.1 == Some(r.0));
                    assert(runs[runs.len() - 1] == r);
                }
            }
        } else {
            assert(runs == st.0);
            assert forall|r: (int, int)| is_string_run(b, r) implies runs.contains(r) by {
                if r.1 == n {
                    assert(st.1 == Some(r.0));
                }
            }
        }
    } else {
        assert(runs == st.0);
        assert forall|r: (int, int)| is_string_run(b, r) implies runs.contains(r) by {
            if r.1 == n {
                assert(r.0 < n);
            }
        }
    }
    assert forall|j: int| 0 <= j < runs.len() implies #[trigger] spec_extract_strings(b)[j]
        == (runs[j].0 as u64, bytes_chars(b.subrange(runs[j].0, runs[j].1))) by {
        assert(spec_extract_strings(b)[j] == run_entry(b, runs[j]));
    }
}

/// A signature is claimed only on its evidence: `Seg` on the magic, an 8080
/// payload when its big-endian length word is the file length and a header
/// word other than the second is a tag hash, text when every byte is
/// graphic ASCII or whitespace; the confidence follows the signature.
pub proof fn law_signature_needs_evidence(b: Seq<u8>)
    ensures
        spec_detect_signature(b).0 == Signature::Seg ==> b.len() >= 4 && b[0] == 0x53 && b[1] == 0x45 && b[2] == 0x47,
        spec_detect_signature(b).0 == Signature::Definition8080 ==> b.len() >= 16 && be_word(b, 0) == b.len() && header_has_tag(b),
        spec_detect_signature(b).0 == Signature::Text ==> b.len() > 0,
        spec_detect_signature(b).1 == (match spec_detect_signature(b).0 {
            Signature::Seg => 100u8,
            Signature::Definition8080 => 100u8,
            Signature::Text => 70u8,
            Signature::Unknown => 0u8,
        }),
{
}


/// A byte that text may hold: graphic ASCII (`0x21..=0x7e`) or ASCII
/// whitespace (space, tab, line feed, form feed, carriage return).
pub open spec fn text_byte(c: u8) -> bool {
    (0x21 <= c && c <= 0x7e) || c == 0x20 || c == 0x09 || c == 0x0a || c == 0x0c || c == 0x0d
}

/// Text is claimed on its evidence alone: a file detected as text is
/// non-empty and holds nothing but graphic ASCII and ASCII whitespace (so a
/// NUL byte, or any other control or non-ASCII byte, rules text out); and a
/// non-empty file made only of such bytes, without the `SEG` magic and
/// without the 8080 evidence, is text, with confidence 70.
pub proof fn law_text_needs_text_bytes(b: Seq<u8>)
    ensures
        spec_detect_signature(b).0 == Signature::Text
            ==> b.len() > 0 && forall|i: int| 0 <= i < b.len() ==> text_byte(#[trigger] b[i]),
        (exists|i: int| 0 <= i < b.len() && !text_byte(#[trigger] b[i]))
            ==> spec_detect_signature(b).0 != Signature::Text,
        ({
            &&& b.len() > 0
            &&& forall|i: int| 0 <= i < b.len() ==> text_byte(#[trigger] b[i])
            &&& !(b.len() >= 4 && b[0] == 0x53 && b[1] == 0x45 && b[2] == 0x47 && (b[3] == 0x46 || b[3] == 0))
            &&& !(b.len() >= 16 && be_word(b, 0) == b.len() && header_has_tag(b))
        }) ==> spec_detect_signature(b) == (Signature::Text, 70u8),
{
    if spec_detect_signature(b).0 == Signature::Text {
        assert forall|i: int| 0 <= i < b.len() implies text_byte(#[trigger] b[i]) by {
            assert(is_graphic(b[i]) || is_ascii_space(b[i]));
        }
    }
    if b.len() > 0 && forall|i: int| 0 <= i < b.len() ==> text_byte(#[trigger] b[i]) {
        assert forall|i: int| 0 <= i < b.len() implies #[trigger] is_graphic(b[i]) || is_ascii_space(b[i]) by {
            assert(text_byte(b[i]));
        }
    }
}

/// Each tag identifier among the first `n` words is the entry of a word,
/// other than the second, that holds a tag hash; words come in order.
proof fn lemma_tags(b: Seq<u8>, n: int)
    requires
        0 <= n <= b.len() / 4,
        b.len() <= u64::MAX,
    ensures
        forall|j: int| 0 <= j < tag_identifiers(b, n).len() ==> exists|k: int|
            0 <= k < n && k != 1 && spec_is_tag_hash(be_word(b, k)) && #[trigger] tag_identifiers(b, n)[j] == tag_entry(b, k),
        forall|j: int| 0 <= j && j + 1 < tag_identifiers(b, n).len()
            ==> #[trigger] tag_identifiers(b, n)[j].0 < tag_identifiers(b, n)[j + 1].0,
        forall|j: int| 0 <= j < tag_identifiers(b, n).len() ==> #[trigger] tag_identifiers(b, n)[j].0 < 4 * n,
    decreases n,
{
    if n > 0 {
        lemma_tags(b, n - 1);
        let prev = tag_identifiers(b, n - 1);
        let cur = tag_identifiers(b, n);
        if n - 1 != 1 && spec_is_tag_hash(be_word(b, n - 1)) {
            assert(cur == prev.push(tag_entry(b, n - 1)));
            assert forall|j: int| 0 <= j < cur.len() implies exists|k: int|
                0 <= k < n && k != 1 && spec_is_tag_hash(be_word(b, k)) && #[trigger] cur[j] == tag_entry(b, k) by {
                if j < prev.len() {
                    assert(cur[j] == prev[j]);
                } else {
                    assert(cur[j] == tag_entry(b, n - 1));
                }
            }
            assert forall|j: int| 0 <= j && j + 1 < cur.len() implies #[trigger] cur[j].0 < cur[j + 1].0 by {
                if j + 1 < prev.len() {
                    assert(cur[j] == prev[j]);
                    assert(cur[j + 1] == prev[j + 1]);
                } else {
                    assert(cur[j] == prev[j]);
                    assert(cur[j + 1] == tag_entry(b, n - 1));
                }
            }
            assert forall|j: int| 0 <= j < cur.len() implies #[trigger] cur[j].0 < 4 * n by {
                if j < prev.len() {
                    assert(cur[j] == prev[j]);
                }
            }
        }
    }
}

/// The tag identifiers are, in order of their offsets, the words other than
/// the second that hold a tag hash (`0x80800001..=0x81ffffff`), each
/// written as `0x` and the word's eight hexadecimal digits.
pub proof fn law_tag_identifiers_are_tag_words(b: Seq<u8>)
    requires
        b.len() <= u64::MAX,
    ensures
        forall|j: int| 0 <= j < spec_parse_bytes(b).tag_identifiers.len() ==> exists|k: int|
            0 <= k < b.len() / 4 && k != 1 && spec_is_tag_hash(be_word(b, k))
                && #[trigger] spec_parse_bytes(b).tag_identifiers[j] == tag_entry(b, k),
        forall|j: int| 0 <= j && j + 1 < spec_parse_bytes(b).tag_identifiers.len()
            ==> #[trigger] spec_parse_bytes(b).tag_identifiers[j].0 < spec_parse_bytes(b).tag_identifiers[j + 1].0,
{
    lemma_tags(b, (b.len() / 4) as int);
}

/// Every word among the first `n`, other than the second, that holds a tag
/// hash has its entry among the tag identifiers of the first `n` words.
proof fn lemma_tags_complete(b: Seq<u8>, n: int)
    requires
        0 <= n <= b.len() / 4,
    ensures
        forall|k: int| 0 <= k < n && k != 1 && spec_is_tag_hash(be_word(b, k))
            ==> tag_identifiers(b, n).contains(#[trigger] tag_entry(b, k)),
    decreases n,
{
    if n > 0 {
        lemma_tags_complete(b, n - 1);
        let prev = tag_identifiers(b, n - 1);
        let cur = tag_identifiers(b, n);
        assert forall|k: int| 0 <= k < n && k != 1 && spec_is_tag_hash(be_word(b, k))
            implies cur.contains(#[trigger] tag_entry(b, k)) by {
            if n - 1 != 1 && spec_is_tag_hash(be_word(b, n - 1)) {
                assert(cur == prev.push(tag_entry(b, n - 1)));
                if k < n - 1 {
                    assert(prev.contains(tag_entry(b, k)));
                    let m = choose|m: int| 0 <= m < prev.len() && prev[m] == tag_entry(b, k);
                    assert(cur[m] == tag_entry(b, k));
                } else {
                    assert(cur[prev.len() as int] == tag_entry(b, k));
                }
            } else {
                assert(cur == prev);
                assert(k < n - 1);
            }
        }
    }
}

/// Every tag identifier past the first eight bytes is kept by `late_tags`.
proof fn lemma_late_tags_complete(t: Seq<(u64, Seq<char>)>)
    ensures
        forall|j: int| 0 <= j < t.len() && t[j].0 > 8 ==> late_tags(t).contains(#[trigger] t[j]),
    decreases t.len(),
{
    if t.len() > 0 {
        let d = t.drop_last();
        lemma_late_tags_complete(d);
        let prev = late_tags(d);
        let cur = late_tags(t);
        assert forall|j: int| 0 <= j < t.len() && t[j].0 > 8 implies cur.contains(#[trigger] t[j]) by {
            if j < t.len() - 1 {
                assert(d[j] == t[j]);
                assert(prev.contains(d[j]));
                let m = choose|m: int| 0 <= m < prev.len() && prev[m] == d[j];
                if t.last().0 > 8 {
                    assert(cur == prev.push(t.last()));
                    assert(cur[m] == t[j]);
                } else {
                    assert(cur == prev);
                }
            } else {
                assert(cur == prev.push(t.last()));
                assert(cur[prev.len() as int] == t[j]);
            }
        }
    }
}

/// No tag word is missed, however far into the file it lies: for every
/// four-byte word `k` of the file other than the second whose big-endian
/// value lies in `0x80800001..=0x81ffffff`, the parsed file lists the tag
/// identifier at offset `4k` written as `0x` and the word's eight
/// lower-case hexadecimal digits; when the offset is past the first eight
/// bytes, that tag identifier is also a reference.
pub proof fn law_every_tag_word_is_identified(b: Seq<u8>, k: int)
    requires
        b.len() <= u64::MAX,
        0 <= k,
        4 * k + 4 <= b.len(),
        k != 1,
        0x80800001 <= b[4 * k] * 16777216 + b[4 * k + 1] * 65536 + b[4 * k + 2] * 256 + b[4 * k + 3] <= 0x81ffffff,
    ensures
        spec_parse_bytes(b).tag_identifiers.contains(((4 * k) as u64, "0x"@ + hex_lower(b.subrange(4 * k, 4 * k + 4)))),
        4 * k > 8 ==> spec_parse_bytes(b).references.contains(((4 * k) as u64, "0x"@ + hex_lower(b.subrange(4 * k, 4 * k + 4)))),
{
    let n = (b.len() / 4) as int;
    lemma_tags_complete(b, n);
    assert(spec_is_tag_hash(be_word(b, k)));
    let e = tag_entry(b, k);
    let p = spec_parse_bytes(b);
    assert(p.tag_identifiers.contains(e));
    if 4 * k > 8 {
        lemma_late_tags_complete(p.tag_identifiers);
        let m = choose|m: int| 0 <= m < p.tag_identifiers.len() && p.tag_identifiers[m] == e;
        assert(p.tag_identifiers[m].0 > 8);
        assert(late_tags(p.tag_identifiers).contains(e));
        let h = hex_references(p.strings);
        let m2 = choose|m2: int| 0 <= m2 < late_tags(p.tag_identifiers).len() && late_tags(p.tag_identifiers)[m2] == e;
        assert(p.references == h + late_tags(p.tag_identifiers));
        assert(p.references[h.len() + m2] == e);
    }
}

proof fn lemma_headers(b: Seq<u8>, n: int)
    requires
        0 <= n <= header_words(b),
    ensures
        header_candidates(b, n).len() <= n,
        forall|j: int| 0 <= j < header_candidates(b, n).len() ==> exists|k: int|
            0 <= k < n && le_word(b, k) < b.len() && #[trigger] header_candidates(b, n)[j] == header_field(b, k),
    decreases n,
{
    if n > 0 {
        lemma_headers(b, n - 1);
        let prev = header_candidates(b, n - 1);
        let cur = header_candidates(b, n);
        if le_word(b, n - 1) < b.len() {
            assert(cur == prev.push(header_field(b, n - 1)));
            assert forall|j: int| 0 <= j < cur.len() implies exists|k: int|
                0 <= k < n && le_word(b, k) < b.len() && #[trigger] cur[j] == header_field(b, k) by {
                if j < prev.len() {
                    assert(cur[j] == prev[j]);
                } else {
                    assert(cur[j] == header_field(b, n - 1));
                }
            }
        }
    }
}

/// Header candidates are recorded, never trusted: at most sixteen, each a
/// word among the first sixteen whose little-endian value is smaller than
/// the file, given with its offset, size 4 and decimal value.
pub proof fn law_header_candidates_are_bounded(b: Seq<u8>)
    ensures
        spec_parse_bytes(b).fields.len() <= 16,
        forall|j: int| 0 <= j < spec_parse_bytes(b).fields.len() ==> exists|k: int|
            0 <= k < 16 && 4 * k + 4 <= b.len() && le_word(b, k) < b.len()
                && #[trigger] spec_parse_bytes(b).fields[j] == header_field(b, k),
{
    lemma_headers(b, header_words(b));
}

proof fn lemma_hex_refs(s: Seq<(u64, Seq<char>)>)
    ensures
        forall|j: int| 0 <= j < hex_references(s).len() ==> s.contains(#[trigger] hex_references(s)[j])
            && is_hex_reference(hex_references(s)[j].1),
    decreases s.len(),
{
    if s.len() > 0 {
        lemma_hex_refs(s.drop_last());
        let prev = hex_references(s.drop_last());
        let cur = hex_references(s);
        assert forall|j: int| 0 <= j < cur.len() implies s.contains(#[trigger] cur[j]) && is_hex_reference(cur[j].1) by {
            if j < prev.len() {
                assert(cur[j] == prev[j]);
                let m = choose|m: int| 0 <= m < s.drop_last().len() && s.drop_last()[m] == prev[j];
                assert(s[m] == prev[j]);
            } else {
                assert(cur[j] == s.last());
                assert(s[s.len() - 1] == s.last());
            }
        }
    }
}

proof fn lemma_late_tags(t: Seq<(u64, Seq<char>)>)
    ensures
        forall|j: int| 0 <= j < late_tags(t).len() ==> t.contains(#[trigger] late_tags(t)[j]) && late_tags(t)[j].0 > 8,
    decreases t.len(),
{
    if t.len() > 0 {
        lemma_late_tags(t.drop_last());
        let prev = late_tags(t.drop_last());
        let cur = late_tags(t);
        assert forall|j: int| 0 <= j < cur.len() implies t.contains(#[trigger] cur[j]) && cur[j].0 > 8 by {
            if j < prev.len() {
                assert(cur[j] == prev[j]);
                let m = choose|m: int| 0 <= m < t.drop_last().len() && t.drop_last()[m] == prev[j];
                assert(t[m] == prev[j]);
            } else {
                assert(cur[j] == t.last());
                assert(t[t.len() - 1] == t.last());
            }
        }
    }
}

/// Every reference is either an extracted string that reads as a 64-digit
/// hexadecimal hash, or a tag identifier found past the first eight bytes.
pub proof fn law_references_come_from_strings_and_tags(b: Seq<u8>)
    ensures
        forall|j: int| 0 <= j < spec_parse_bytes(b).references.len() ==> {
            let r = #[trigger] spec_parse_bytes(b).references[j];
            ||| spec_parse_bytes(b).strings.contains(r) && is_hex_reference(r.1)
            ||| spec_parse_bytes(b).tag_identifiers.contains(r) && r.0 > 8
        },
{
    let p = spec_parse_bytes(b);
    lemma_hex_refs(p.strings);
    lemma_late_tags(p.tag_identifiers);
    let h = hex_references(p.strings);
    let l = late_tags(p.tag_identifiers);
    assert(p.references == h + l);
    assert forall|j: int| 0 <= j < p.references.len() implies {
        let r = #[trigger] p.references[j];
        ||| p.strings.contains(r) && is_hex_reference(r.1)
        ||| p.tag_identifiers.contains(r) && r.0 > 8
    } by {
        if j < h.len() {
            assert(p.references[j] == h[j]);
        } else {
            assert(p.references[j] == l[j - h.len()]);
        }
    }
}

} // verus!
