//! Exploration of the definition index: hash normalisation and the
//! conservative classification of a definition by semantic tokens.
use vstd::prelude::*;
use crate::runtime::{ascii_normalize, normalize, spec_normalize};
use crate::text::{append_str, chars_of, is_ascii_text, lit, lowercase, to_lowercase};

verus! {

/// Normalises a hash or tag the way the definition index stores it.
pub fn normalize_hash(h: &str) -> (r: String)
    ensures
        r@ == spec_normalize(h@),
        is_ascii_text(h@) ==> r@ == ascii_normalize(h@),
{
    normalize(h)
}

/// The classification keys, tried in this order.
pub open spec fn class_keys() -> Seq<Seq<char>> {
    seq![
        "weapon"@,
        "armor"@,
        "activity"@,
        "quest"@,
        "perk"@,
        "location"@,
        "vendor"@,
        "character"@,
        "item"@,
    ]
}

/// `key` occurs in `text` at position `i`.
pub open spec fn occurs_at(text: Seq<char>, key: Seq<char>, i: int) -> bool {
    0 <= i && i + key.len() <= text.len() && text.subrange(i, i + key.len()) == key
}

pub open spec fn contains(text: Seq<char>, key: Seq<char>) -> bool {
    exists|i: int| #[trigger] occurs_at(text, key, i)
}

/// The first key, in order, that occurs in `text`, or `unknown`.
pub open spec fn classify_from(text: Seq<char>, keys: Seq<Seq<char>>) -> Seq<char>
    decreases keys.len(),
{
    if keys.len() == 0 {
        "unknown"@
    } else if contains(text, keys[0]) {
        keys[0]
    } else {
        classify_from(text, keys.drop_first())
    }
}

/// The text searched: the lower-cased path, then each present value
/// lower-cased, each after a space.
pub open spec fn search_text(path: Seq<char>, values: Seq<Option<Seq<char>>>) -> Seq<char>
    decreases values.len(),
{
    if values.len() == 0 {
        lowercase(path)
    } else {
        let prev = search_text(path, values.drop_last());
        match values.last() {
            Some(v) => prev + " "@ + lowercase(v),
            None => prev,
        }
    }
}

pub open spec fn values_view(values: Seq<Option<String>>) -> Seq<Option<Seq<char>>> {
    values.map_values(|o: Option<String>| match o {
        Some(s) => Some(s@),
        None => None,
    })
}

fn occurs(text: &Vec<char>, key: &Vec<char>) -> (r: bool)
    ensures
        r == contains(text@, key@),
{
    let n = text.len();
    let k = key.len();
    if k > n {
        assert forall|i: int| !#[trigger] occurs_at(text@, key@, i) by {}
        return false;
    }
    let mut i: usize = 0;
    while i <= n - k
        invariant
            n == text@.len(),
            k == key@.len(),
            k <= n,
            i <= n - k + 1,
            forall|j: int| 0 <= j < i ==> !#[trigger] occurs_at(text@, key@, j),
        decreases n - i,
    {
        let mut j: usize = 0;
        let mut same = true;
        while j < k
            invariant
                n == text@.len(),
                k == key@.len(),
                i + k <= n,
                j <= k,
                same <==> forall|m: int| 0 <= m < j ==> text@[i + m] == key@[m],
            decreases k - j,
        {
            if text[i + j] != key[j] {
                same = false;
            }
            j = j + 1;
        }
        if same {
            assert(text@.subrange(i as int, i + k) =~= key@);
            assert(occurs_at(text@, key@, i as int));
            return true;
        }
        assert(!occurs_at(text@, key@, i as int)) by {
            if occurs_at(text@, key@, i as int) {
                let m = choose|m: int| 0 <= m < k && text@[i + m] != key@[m];
                assert(text@.subrange(i as int, i + k)[m] == key@[m]);
            }
        }
        i = i + 1;
    }
    assert forall|j: int| !#[trigger] occurs_at(text@, key@, j) by {
        if 0 <= j && j < i {
        }
    }
    false
}

/// Classifies a definition from its path and the values of its strings and
/// fields: the first of `weapon`, `armor`, `activity`, `quest`, `perk`,
/// `location`, `vendor`, `character`, `item` that occurs in the lower-cased
/// text, or `unknown`. No label is invented from type words or counts.
pub fn classify(path: &str, values: &Vec<Option<String>>) -> (r: String)
    ensures
        r@ == classify_from(search_text(path@, values_view(values@)), class_keys()),
{
    let mut text = to_lowercase(path);
    let nv = values.len();
    for i in 0..nv
        invariant
            nv == values@.len(),
            text@ == search_text(path@, values_view(values@.subrange(0, i as int))),
    {
        assert(values_view(values@.subrange(0, i + 1)).drop_last() == values_view(values@.subrange(0, i as int)));
        match &values[i] {
            Some(v) => {
                append_str(&mut text, " ");
                let l = to_lowercase(v.as_str());
                append_str(&mut text, l.as_str());
            },
            None => {},
        }
    }
    assert(values@.subrange(0, nv as int) == values@);
    let t = chars_of(text.as_str());
    let keys: Vec<&str> = vec!["weapon", "armor", "activity", "quest", "perk", "location", "vendor", "character", "item"];
    let ghost target = search_text(path@, values_view(values@));
    let nk = keys.len();
    let mut idx: usize = 0;
    assert(keys@.map_values(|s: &str| s@) =~= class_keys());
    assert(class_keys().subrange(0, nk as int) =~= class_keys());
    while idx < nk
        invariant
            nk == keys@.len(),
            idx <= nk,
            t@ == target,
            target == search_text(path@, values_view(values@)),
            keys@.map_values(|s: &str| s@) == class_keys(),
            classify_from(target, class_keys()) == classify_from(target, class_keys().subrange(idx as int, nk as int)),
        decreases nk - idx,
    {
        let key = chars_of(keys[idx]);
        assert(keys@.map_values(|s: &str| s@)[idx as int] == keys@[idx as int]@);
        assert(class_keys().subrange(idx as int, nk as int)[0] == keys@[idx as int]@);
        if occurs(&t, &key) {
            let ghost sub = class_keys().subrange(idx as int, nk as int);
            assert(sub.len() > 0);
            assert(key@ == sub[0]);
            assert(contains(target, sub[0]));
            assert(classify_from(target, sub) == sub[0]);
            return lit(keys[idx]);
        }
        assert(class_keys().subrange(idx as int, nk as int).drop_first() == class_keys().subrange(idx + 1, nk as int));
        idx = idx + 1;
    }
    lit("unknown")
}

/// The first key of `keys` that occurs in `text` is the classification;
/// when none occurs, it is `unknown`.
proof fn lemma_first_occurring_key(text: Seq<char>, keys: Seq<Seq<char>>)
    ensures
        (forall|i: int| 0 <= i < keys.len() ==> !contains(text, #[trigger] keys[i]))
            ==> classify_from(text, keys) == "unknown"@,
        forall|i: int|
            0 <= i < keys.len() && contains(text, #[trigger] keys[i])
                && (forall|j: int| 0 <= j < i ==> !contains(text, keys[j]))
                ==> classify_from(text, keys) == keys[i],
    decreases keys.len(),
{
    if keys.len() > 0 {
        let rest = keys.drop_first();
        lemma_first_occurring_key(text, rest);
        assert forall|i: int|
            0 <= i < keys.len() && contains(text, #[trigger] keys[i])
                && (forall|j: int| 0 <= j < i ==> !contains(text, keys[j]))
            implies classify_from(text, keys) == keys[i] by {
            if i > 0 {
                assert(!contains(text, keys[0]));
                assert(rest[i - 1] == keys[i]);
                assert forall|j: int| 0 <= j < i - 1 implies !contains(text, rest[j]) by {
                    assert(rest[j] == keys[j + 1]);
                }
            }
        }
        if forall|i: int| 0 <= i < keys.len() ==> !contains(text, #[trigger] keys[i]) {
            assert(!contains(text, keys[0]));
            assert forall|i: int| 0 <= i < rest.len() implies !contains(text, #[trigger] rest[i]) by {
                assert(rest[i] == keys[i + 1]);
            }
        }
    }
}

/// Classification is conservative: a category is given only when its
/// token occurs in the searched text, and it is the first such token in
/// the fixed order; when no token occurs the definition is `unknown`.
pub proof fn law_classification_needs_evidence(text: Seq<char>)
    ensures
        (forall|i: int| 0 <= i < class_keys().len() ==> !contains(text, #[trigger] class_keys()[i]))
            ==> classify_from(text, class_keys()) == "unknown"@,
        forall|i: int|
            0 <= i < class_keys().len() && contains(text, #[trigger] class_keys()[i])
                && (forall|j: int| 0 <= j < i ==> !contains(text, class_keys()[j]))
                ==> classify_from(text, class_keys()) == class_keys()[i],
{
    lemma_first_occurring_key(text, class_keys());
}

/// An occurrence stays where it is when text is appended.
proof fn lemma_occurs_in_front(t: Seq<char>, u: Seq<char>, key: Seq<char>, i: int)
    requires
        occurs_at(t, key, i),
    ensures
        occurs_at(t + u, key, i),
{
    assert((t + u).subrange(i, i + key.len()) =~= t.subrange(i, i + key.len()));
}

/// An occurrence moves along by the length of text put in front of it.
proof fn lemma_occurs_behind(t: Seq<char>, u: Seq<char>, key: Seq<char>, i: int)
    requires
        occurs_at(u, key, i),
    ensures
        occurs_at(t + u, key, i + t.len()),
{
    assert((t + u).subrange(i + t.len(), i + t.len() + key.len()) =~= u.subrange(i, i + key.len()));
}

/// The searched text starts with the lower-cased path, and whatever occurs
/// in the path or in a present value, lower-cased, occurs in it.
proof fn lemma_search_text(path: Seq<char>, values: Seq<Option<Seq<char>>>, key: Seq<char>)
    ensures
        lowercase(path).len() <= search_text(path, values).len(),
        search_text(path, values).subrange(0, lowercase(path).len() as int) == lowercase(path),
        contains(lowercase(path), key) ==> contains(search_text(path, values), key),
        forall|i: int| 0 <= i < values.len() && (#[trigger] values[i]) is Some && contains(lowercase(values[i]->0), key)
            ==> contains(search_text(path, values), key),
    decreases values.len(),
{
    reveal_strlit(" ");
    let st = search_text(path, values);
    if values.len() > 0 {
        let d = values.drop_last();
        lemma_search_text(path, d, key);
        let prev = search_text(path, d);
        match values.last() {
            Some(v) => {
                let tail = " "@ + lowercase(v);
                assert(st == prev + tail);
                assert(st.subrange(0, lowercase(path).len() as int) =~= prev.subrange(0, lowercase(path).len() as int));
                if contains(prev, key) {
                    let p = choose|p: int| #[trigger] occurs_at(prev, key, p);
                    lemma_occurs_in_front(prev, tail, key, p);
                }
                if contains(lowercase(v), key) {
                    let p = choose|p: int| #[trigger] occurs_at(lowercase(v), key, p);
                    lemma_occurs_behind(" "@, lowercase(v), key, p);
                    lemma_occurs_behind(prev, tail, key, p + 1);
                    assert((prev + tail) == prev + (" "@ + lowercase(v)));
                }
                assert forall|i: int| 0 <= i < values.len() && (#[trigger] values[i]) is Some && contains(lowercase(values[i]->0), key)
                    implies contains(st, key) by {
                    if i < values.len() - 1 {
                        assert(d[i] == values[i]);
                    }
                }
            },
            None => {
                assert(st == prev);
                assert forall|i: int| 0 <= i < values.len() && (#[trigger] values[i]) is Some && contains(lowercase(values[i]->0), key)
                    implies contains(st, key) by {
                    assert(i < values.len() - 1);
                    assert(d[i] == values[i]);
                }
            },
        }
    } else {
        assert(st.subrange(0, lowercase(path).len() as int) =~= lowercase(path));
    }
}

/// Every part of a definition is searched: the searched text begins with
/// the lower-cased path and holds every present value, lower-cased.
pub proof fn law_search_text_holds_path_and_values(path: Seq<char>, values: Seq<Option<Seq<char>>>)
    ensures
        search_text(path, values).subrange(0, lowercase(path).len() as int) == lowercase(path),
        forall|i: int| 0 <= i < values.len() && (#[trigger] values[i]) is Some
            ==> contains(search_text(path, values), lowercase(values[i]->0)),
{
    lemma_search_text(path, values, Seq::empty());
    assert forall|i: int| 0 <= i < values.len() && (#[trigger] values[i]) is Some
        implies contains(search_text(path, values), lowercase(values[i]->0)) by {
        let l = lowercase(values[i]->0);
        lemma_search_text(path, values, l);
        assert(l.subrange(0, l.len() as int) =~= l);
        assert(occurs_at(l, l, 0));
    }
}

/// A token found in the path or in any present value classifies the
/// definition, unless an earlier token occurs somewhere in what is searched.
pub proof fn law_classification_finds_tokens_in_every_value(
    path: Seq<char>,
    values: Seq<Option<Seq<char>>>,
    i: int,
    j: int,
)
    requires
        0 <= j < class_keys().len(),
        0 <= i < values.len(),
        values[i] is Some,
        contains(lowercase(values[i]->0), class_keys()[j]),
        forall|jj: int| 0 <= jj < j ==> !contains(search_text(path, values), #[trigger] class_keys()[jj]),
    ensures
        classify_from(search_text(path, values), class_keys()) == class_keys()[j],
{
    lemma_search_text(path, values, class_keys()[j]);
    lemma_first_occurring_key(search_text(path, values), class_keys());
}

/// A token found in the path classifies the definition, unless an earlier
/// token occurs somewhere in what is searched.
pub proof fn law_classification_finds_tokens_in_the_path(path: Seq<char>, values: Seq<Option<Seq<char>>>, j: int)
    requires
        0 <= j < class_keys().len(),
        contains(lowercase(path), class_keys()[j]),
        forall|jj: int| 0 <= jj < j ==> !contains(search_text(path, values), #[trigger] class_keys()[jj]),
    ensures
        classify_from(search_text(path, values), class_keys()) == class_keys()[j],
{
    lemma_search_text(path, values, class_keys()[j]);
    lemma_first_occurring_key(search_text(path, values), class_keys());
}

} // verus!
