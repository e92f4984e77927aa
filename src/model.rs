//! The mathematical model of the table and of both lookup directions.
use vstd::prelude::*;

verus! {

/// One record of the table: a MIME type and its extensions, in order.
pub type Entry = (Seq<char>, Seq<Seq<char>>);

/// Entry `i` is the first record whose MIME type is `m`.
pub open spec fn is_first_key(es: Seq<Entry>, m: Seq<char>, i: int) -> bool {
    &&& 0 <= i < es.len()
    &&& es[i].0 == m
    &&& forall|j: int| 0 <= j < i ==> #[trigger] es[j].0 != m
}

/// Some record has MIME type `m`.
pub open spec fn has_key(es: Seq<Entry>, m: Seq<char>) -> bool {
    exists|i: int| 0 <= i < es.len() && #[trigger] es[i].0 == m
}

/// Entry `i` is the first record whose extension list holds `e`.
pub open spec fn is_first_claim(es: Seq<Entry>, e: Seq<char>, i: int) -> bool {
    &&& 0 <= i < es.len()
    &&& es[i].1.contains(e)
    &&& forall|j: int| 0 <= j < i ==> !(#[trigger] es[j].1.contains(e))
}

/// Some record lists extension `e`.
pub open spec fn is_claimed(es: Seq<Entry>, e: Seq<char>) -> bool {
    exists|i: int| 0 <= i < es.len() && #[trigger] es[i].1.contains(e)
}

/// The extensions of MIME type `m`: those of the first record for `m`.
pub open spec fn forward_lookup(es: Seq<Entry>, m: Seq<char>) -> Option<Seq<Seq<char>>> {
    if exists|i: int| is_first_key(es, m, i) {
        Some(es[choose|i: int| is_first_key(es, m, i)].1)
    } else {
        None
    }
}

/// The preferred extension of `m`: the first of its list, if it has one.
pub open spec fn preferred_lookup(es: Seq<Entry>, m: Seq<char>) -> Option<Seq<char>> {
    match forward_lookup(es, m) {
        Some(exts) => if exts.len() > 0 { Some(exts[0]) } else { None },
        None => None,
    }
}

/// The canonical MIME type of extension `e`: that of the first record,
/// in document order, that lists `e`.
pub open spec fn reverse_lookup(es: Seq<Entry>, e: Seq<char>) -> Option<Seq<char>> {
    if exists|i: int| is_first_claim(es, e, i) {
        Some(es[choose|i: int| is_first_claim(es, e, i)].0)
    } else {
        None
    }
}

/// The model of a parsed table held in executable form.
pub open spec fn entries_view(v: Seq<(String, Vec<String>)>) -> Seq<Entry> {
    v.map_values(|p: (String, Vec<String>)| (p.0@, p.1@.map_values(|s: String| s@)))
}

/// At most one record is the first for a MIME type.
pub proof fn lemma_first_key_unique(es: Seq<Entry>, m: Seq<char>, i: int, j: int)
    requires
        is_first_key(es, m, i),
        is_first_key(es, m, j),
    ensures
        i == j,
{
    if i < j {
        assert(es[i].0 != m);
    } else if j < i {
        assert(es[j].0 != m);
    }
}

/// At most one record is the first to claim an extension.
pub proof fn lemma_first_claim_unique(es: Seq<Entry>, e: Seq<char>, i: int, j: int)
    requires
        is_first_claim(es, e, i),
        is_first_claim(es, e, j),
    ensures
        i == j,
{
    if i < j {
        assert(!es[i].1.contains(e));
    } else if j < i {
        assert(!es[j].1.contains(e));
    }
}

/// The first record for a MIME type gives its full extension list, in order,
/// and the head of that list, when there is one, is its preferred extension.
/// (A JSON object's keys are unique, so every record of a parsed table is
/// the first for its MIME type.)
pub proof fn law_forward_lookup(es: Seq<Entry>, i: int)
    requires
        is_first_key(es, es[i].0, i),
    ensures
        forward_lookup(es, es[i].0) == Some(es[i].1),
        es[i].1.len() > 0 ==> preferred_lookup(es, es[i].0) == Some(es[i].1[0]),
{
    let m = es[i].0;
    let k = choose|k: int| is_first_key(es, m, k);
    lemma_first_key_unique(es, m, i, k);
}

/// An extension maps to the MIME type of the first record, in document
/// order, that lists it; later claims on it are ignored.
pub proof fn law_reverse_first_claim(es: Seq<Entry>, e: Seq<char>, i: int)
    requires
        is_first_claim(es, e, i),
    ensures
        reverse_lookup(es, e) == Some(es[i].0),
{
    let k = choose|k: int| is_first_claim(es, e, k);
    lemma_first_claim_unique(es, e, i, k);
}

/// An extension that some record lists maps to the MIME type of a record
/// at or before that one.
pub proof fn law_claimed_has_mime(es: Seq<Entry>, e: Seq<char>, i: int)
    requires
        0 <= i < es.len(),
        es[i].1.contains(e),
    ensures
        exists|k: int| 0 <= k <= i && is_first_claim(es, e, k) && reverse_lookup(es, e) == Some(es[k].0),
{
    lemma_some_first_claim(es, e, i);
    let k = choose|k: int| 0 <= k <= i && is_first_claim(es, e, k);
    law_reverse_first_claim(es, e, k);
}

/// Whenever some record lists `e`, a first such record exists at or before it.
pub proof fn lemma_some_first_claim(es: Seq<Entry>, e: Seq<char>, i: int)
    requires
        0 <= i < es.len(),
        es[i].1.contains(e),
    ensures
        exists|k: int| 0 <= k <= i && is_first_claim(es, e, k),
    decreases i,
{
    if exists|j: int| 0 <= j < i && #[trigger] es[j].1.contains(e) {
        let j = choose|j: int| 0 <= j < i && #[trigger] es[j].1.contains(e);
        lemma_some_first_claim(es, e, j);
    } else {
        assert(is_first_claim(es, e, i));
    }
}

/// A string that no record has as MIME type has neither extensions nor a
/// preferred extension; one that no record lists has no MIME type.
pub proof fn law_unknown_is_absent(es: Seq<Entry>, s: Seq<char>)
    ensures
        !has_key(es, s) ==> forward_lookup(es, s) is None && preferred_lookup(es, s) is None,
        !is_claimed(es, s) ==> reverse_lookup(es, s) is None,
{
    if !has_key(es, s) && exists|i: int| is_first_key(es, s, i) {
        let i = choose|i: int| is_first_key(es, s, i);
        assert(es[i].0 == s);
    }
    if !is_claimed(es, s) && exists|i: int| is_first_claim(es, s, i) {
        let i = choose|i: int| is_first_claim(es, s, i);
        assert(es[i].1.contains(s));
    }
}

} // verus!
