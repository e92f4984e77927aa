//! The reverse index, extension -> MIME type, derived from the forward table.
use vstd::prelude::*;
use crate::db::MimeDb;
use crate::index::{index_contents, KeyIndex};
use crate::model::{
    entries_view, is_first_claim, lemma_first_claim_unique, reverse_lookup, Entry,
};

verus! {

/// Each extension of a table with the position of the first record that
/// lists it, and the MIME type of every record.
pub struct ReverseIndex {
    mimes: Vec<String>,
    by_ext: KeyIndex,
    source: Ghost<Seq<Entry>>,
}

impl View for ReverseIndex {
    type V = Seq<Entry>;

    /// The table this index was derived from.
    closed spec fn view(&self) -> Seq<Entry> {
        self.source@
    }
}

impl ReverseIndex {
    /// The index sends each listed extension to its first claim, and
    /// `mimes` holds the MIME type of each record.
    pub closed spec fn wf(&self) -> bool {
        let es = self@;
        let ix = index_contents(self.by_ext);
        &&& self.mimes@.len() == es.len()
        &&& forall|j: int| 0 <= j < es.len() ==> (#[trigger] self.mimes@[j])@ == es[j].0
        &&& forall|e: Seq<char>| #[trigger] ix.dom().contains(e) ==> is_first_claim(es, e, ix[e] as int)
        &&& forall|j: int, e: Seq<char>| 0 <= j < es.len() && #[trigger] es[j].1.contains(e) ==> ix.dom().contains(e)
    }

    /// Inverts the table once: each extension goes to the first record, in
    /// document order, that lists it; later claims are left out.
    pub fn build(db: &MimeDb) -> (r: ReverseIndex)
        ensures
            r.wf(),
            r@ == db@,
    {
        let recs = db.records();
        let ghost es = db@;
        let mut mimes: Vec<String> = Vec::new();
        let mut by_ext = KeyIndex::new();
        let mut i: usize = 0;
        while i < recs.len()
            invariant
                i <= recs.len(),
                es == entries_view(recs@),
                mimes@.len() == i,
                forall|j: int| 0 <= j < i ==> (#[trigger] mimes@[j])@ == es[j].0,
                forall|e: Seq<char>| #[trigger] index_contents(by_ext).dom().contains(e)
                    ==> index_contents(by_ext)[e] < i && is_first_claim(es, e, index_contents(by_ext)[e] as int),
                forall|j: int, e: Seq<char>| 0 <= j < i && #[trigger] es[j].1.contains(e)
                    ==> index_contents(by_ext).dom().contains(e),
            decreases recs.len() - i,
        {
            let exts: &Vec<String> = &recs[i].1;
            assert(es[i as int].1 == exts@.map_values(|s: String| s@));
            let mut k: usize = 0;
            while k < exts.len()
                invariant
                    i < recs.len(),
                    k <= exts.len(),
                    es == entries_view(recs@),
                    es[i as int].1 == exts@.map_values(|s: String| s@),
                    forall|e: Seq<char>| #[trigger] index_contents(by_ext).dom().contains(e)
                        ==> index_contents(by_ext)[e] <= i && is_first_claim(es, e, index_contents(by_ext)[e] as int),
                    forall|j: int, e: Seq<char>| 0 <= j < i && #[trigger] es[j].1.contains(e)
                        ==> index_contents(by_ext).dom().contains(e),
                    forall|q: int| 0 <= q < k ==> index_contents(by_ext).dom().contains(#[trigger] es[i as int].1[q]),
                decreases exts.len() - k,
            {
                let e: &str = exts[k].as_str();
                assert(es[i as int].1[k as int] == e@);
                if by_ext.get(e).is_none() {
                    assert forall|j: int| 0 <= j < i implies !(#[trigger] es[j].1.contains(e@)) by {
                        if es[j].1.contains(e@) {
                            assert(index_contents(by_ext).dom().contains(e@));
                        }
                    }
                    assert(es[i as int].1.contains(e@));
                    by_ext.insert(exts[k].clone(), i);
                }
                k = k + 1;
            }
            assert forall|j: int, e: Seq<char>| 0 <= j < i + 1 && #[trigger] es[j].1.contains(e)
                implies index_contents(by_ext).dom().contains(e) by {
                if j == i {
                    let q = choose|q: int| 0 <= q < es[j].1.len() && es[j].1[q] == e;
                    assert(index_contents(by_ext).dom().contains(es[i as int].1[q]));
                }
            }
            mimes.push(recs[i].0.clone());
            i = i + 1;
        }
        ReverseIndex { mimes, by_ext, source: Ghost(es) }
    }
}

/// The canonical MIME type of `ext`: that of the first record, in table
/// order, that lists it; `None` when no record does. The match is exact.
pub fn ext_to_mime<'a>(rev: &'a ReverseIndex, ext: &str) -> (r: Option<&'a str>)
    requires
        rev.wf(),
    ensures
        match r {
            Some(mime) => reverse_lookup(rev@, ext@) == Some(mime@),
            None => reverse_lookup(rev@, ext@) is None,
        },
{
    match rev.by_ext.get(ext) {
        Some(i) => {
            proof {
                let k = choose|k: int| is_first_claim(rev@, ext@, k);
                lemma_first_claim_unique(rev@, ext@, i as int, k);
            }
            Some(rev.mimes[i].as_str())
        },
        None => {
            assert(!exists|k: int| is_first_claim(rev@, ext@, k));
            None
        },
    }
}

} // verus!
