use vstd::prelude::*;
use crate::manifest::{ini_document, parse_required_packages, required_packages, ManifestError};

verus! {

/// The texts of a sequence of strings.
pub open spec fn views(v: Seq<String>) -> Seq<Seq<char>> {
    v.map_values(|s: String| s@)
}

/// The texts of each list of strings.
pub open spec fn list_views(lists: Seq<Vec<String>>) -> Seq<Seq<Seq<char>>> {
    lists.map_values(|l: Vec<String>| views(l@))
}

/// `str`'s order: lexicographic, character by character (the order of the UTF-8 bytes).
pub open spec fn text_lt(a: Seq<char>, b: Seq<char>) -> bool
    decreases a.len(),
{
    if a.len() == 0 {
        b.len() > 0
    } else if b.len() == 0 {
        false
    } else if a[0] != b[0] {
        (a[0] as u32) < (b[0] as u32)
    } else {
        text_lt(a.drop_first(), b.drop_first())
    }
}

/// `a` comes before `b` or is equal to it.
pub open spec fn text_le(a: Seq<char>, b: Seq<char>) -> bool {
    a == b || text_lt(a, b)
}

/// Each text comes before every later one: sorted, without repeats.
pub open spec fn strictly_sorted(s: Seq<Seq<char>>) -> bool {
    forall|i: int, j: int| 0 <= i < j < s.len() ==> text_lt(#[trigger] s[i], #[trigger] s[j])
}

/// `id` stands in one of the lists.
pub open spec fn in_some(lists: Seq<Seq<Seq<char>>>, id: Seq<char>) -> bool {
    exists|k: int| 0 <= k < lists.len() && #[trigger] lists[k].contains(id)
}

/// `r` is the usage set of `lists`: their union, sorted and without repeats.
pub open spec fn is_usage_of(lists: Seq<Seq<Seq<char>>>, r: Seq<Seq<char>>) -> bool {
    &&& strictly_sorted(r)
    &&& forall|id: Seq<char>| r.contains(id) <==> in_some(lists, id)
}

proof fn lemma_text_lt_irreflexive(a: Seq<char>)
    ensures
        !text_lt(a, a),
    decreases a.len(),
{
    if a.len() > 0 {
        lemma_text_lt_irreflexive(a.drop_first());
    }
}

proof fn lemma_text_lt_asymmetric(a: Seq<char>, b: Seq<char>)
    ensures
        !(text_lt(a, b) && text_lt(b, a)),
    decreases a.len(),
{
    if a.len() > 0 && b.len() > 0 && a[0] == b[0] {
        lemma_text_lt_asymmetric(a.drop_first(), b.drop_first());
    }
}

/// Two sorted lists without repeats that hold the same texts are the same list.
pub proof fn lemma_sorted_unique(a: Seq<Seq<char>>, b: Seq<Seq<char>>)
    requires
        strictly_sorted(a),
        strictly_sorted(b),
        forall|x: Seq<char>| a.contains(x) <==> b.contains(x),
    ensures
        a == b,
    decreases a.len(),
{
    if a.len() == 0 {
        if b.len() > 0 {
            assert(b.contains(b[0]));
        }
        assert(a =~= b);
    } else {
        assert(a.contains(a[0]));
        assert(b.len() > 0);
        assert(b.contains(b[0]));
        let k = choose|k: int| 0 <= k < b.len() && b[k] == a[0];
        let m = choose|m: int| 0 <= m < a.len() && a[m] == b[0];
        if k > 0 {
            assert(text_lt(b[0], b[k]));
            if m > 0 {
                assert(text_lt(a[0], a[m]));
                lemma_text_lt_asymmetric(a[0], a[m]);
            } else {
                lemma_text_lt_irreflexive(a[0]);
            }
        }
        let ta = a.drop_first();
        let tb = b.drop_first();
        assert forall|x: Seq<char>| ta.contains(x) implies tb.contains(x) by {
            let j = choose|j: int| 0 <= j < ta.len() && ta[j] == x;
            assert(a[j + 1] == x);
            assert(text_lt(a[0], a[j + 1]));
            lemma_text_lt_irreflexive(x);
            assert(b.contains(x));
            let l = choose|l: int| 0 <= l < b.len() && b[l] == x;
            assert(l != 0);
            assert(tb[l - 1] == x);
        }
        assert forall|x: Seq<char>| tb.contains(x) implies ta.contains(x) by {
            let j = choose|j: int| 0 <= j < tb.len() && tb[j] == x;
            assert(b[j + 1] == x);
            assert(text_lt(b[0], b[j + 1]));
            lemma_text_lt_irreflexive(x);
            assert(a.contains(x));
            let l = choose|l: int| 0 <= l < a.len() && a[l] == x;
            assert(l != 0);
            assert(ta[l - 1] == x);
        }
        assert forall|i: int, j: int| 0 <= i < j < ta.len() implies text_lt(#[trigger] ta[i], #[trigger] ta[j]) by {
            assert(ta[i] == a[i + 1] && ta[j] == a[j + 1]);
        }
        assert forall|i: int, j: int| 0 <= i < j < tb.len() implies text_lt(#[trigger] tb[i], #[trigger] tb[j]) by {
            assert(tb[i] == b[i + 1] && tb[j] == b[j + 1]);
        }
        lemma_sorted_unique(ta, tb);
        assert(a =~= seq![a[0]] + ta);
        assert(b =~= seq![b[0]] + tb);
    }
}

/// The usage set does not depend on the order in which manifests are found, nor on how
/// their ids are spread over them: lists with the same union give the same set.
pub proof fn lemma_usage_order_free(
    x: Seq<Seq<Seq<char>>>,
    y: Seq<Seq<Seq<char>>>,
    rx: Seq<Seq<char>>,
    ry: Seq<Seq<char>>,
)
    requires
        is_usage_of(x, rx),
        is_usage_of(y, ry),
        forall|id: Seq<char>| in_some(x, id) <==> in_some(y, id),
    ensures
        rx == ry,
{
    lemma_sorted_unique(rx, ry);
}

proof fn lemma_push_contains(s: Seq<Seq<char>>, x: Seq<char>)
    ensures
        forall|id: Seq<char>| s.push(x).contains(id) <==> (s.contains(id) || id == x),
{
    assert forall|id: Seq<char>| s.push(x).contains(id) <==> (s.contains(id) || id == x) by {
        if s.contains(id) {
            let i = choose|i: int| 0 <= i < s.len() && s[i] == id;
            assert(s.push(x)[i] == id);
        }
        if id == x {
            assert(s.push(x)[s.len() as int] == x);
        }
        if s.push(x).contains(id) {
            let i = choose|i: int| 0 <= i < s.len() + 1 && s.push(x)[i] == id;
            if i < s.len() {
                assert(s[i] == id);
            }
        }
    }
}

/// Relies on slice::sort for String: orders by `str`'s order and keeps every element.
#[verifier::external_body]
fn sort_texts(v: &mut Vec<String>)
    ensures
        views(final(v)@).to_multiset() == views(old(v)@).to_multiset(),
        forall|i: int, j: int|
            0 <= i < j < final(v)@.len() ==> text_le(#[trigger] final(v)@[i]@, #[trigger] final(v)@[j]@),
{
    v.sort();
}

/// The usage set: every package id that some manifest requires, sorted and without repeats.
pub fn usage_set(lists: &Vec<Vec<String>>) -> (r: Vec<String>)
    ensures
        is_usage_of(list_views(lists@), views(r@)),
{
    let ghost lv = list_views(lists@);
    let mut all: Vec<String> = Vec::new();
    let mut i: usize = 0;
    while i < lists.len()
        invariant
            0 <= i <= lists.len(),
            lv == list_views(lists@),
            forall|id: Seq<char>| views(all@).contains(id) <==> in_some(lv.take(i as int), id),
        decreases lists.len() - i,
    {
        let list = &lists[i];
        let mut j: usize = 0;
        while j < list.len()
            invariant
                0 <= i < lists.len(),
                0 <= j <= list.len(),
                list == &lists@[i as int],
                lv == list_views(lists@),
                forall|id: Seq<char>|
                    views(all@).contains(id) <==> (in_some(lv.take(i as int), id) || views(list@.take(j as int)).contains(id)),
            decreases list.len() - j,
        {
            let ghost before = all@;
            all.push(list[j].clone());
            assert(views(all@) =~= views(before).push(list@[j as int]@));
            assert(views(list@.take(j + 1 as int)) =~= views(list@.take(j as int)).push(list@[j as int]@));
            proof { lemma_push_contains(views(before), list@[j as int]@); }
            proof { lemma_push_contains(views(list@.take(j as int)), list@[j as int]@); }
            assert forall|id: Seq<char>|
                views(all@).contains(id) <==> (in_some(lv.take(i as int), id) || views(list@.take(j + 1 as int)).contains(id)) by {
                assert(views(before).contains(id) <==> (in_some(lv.take(i as int), id) || views(list@.take(j as int)).contains(id)));
            }
            j = j + 1;
        }
        assert(list@.take(j as int) =~= list@);
        assert forall|id: Seq<char>| in_some(lv.take(i + 1 as int), id) <==> (in_some(lv.take(i as int), id) || views(list@).contains(id)) by {
            assert(lv.take(i + 1 as int)[i as int] == views(list@));
            if in_some(lv.take(i + 1 as int), id) {
                let k = choose|k: int| 0 <= k < lv.take(i + 1 as int).len() && #[trigger] lv.take(i + 1 as int)[k].contains(id);
                if k < i {
                    assert(lv.take(i as int)[k] == lv.take(i + 1 as int)[k]);
                }
            }
            if in_some(lv.take(i as int), id) {
                let k = choose|k: int| 0 <= k < lv.take(i as int).len() && #[trigger] lv.take(i as int)[k].contains(id);
                assert(lv.take(i as int)[k] == lv.take(i + 1 as int)[k]);
            }
        }
        i = i + 1;
    }
    assert(lv.take(i as int) =~= lv);
    let ghost unsorted = views(all@);
    assert(lv.take(i as int) == lv);
    assert(forall|id: Seq<char>| unsorted.contains(id) <==> in_some(lv, id));
    sort_texts(&mut all);
    proof {
        assert forall|id: Seq<char>| views(all@).contains(id) <==> unsorted.contains(id) by {
            vstd::seq_lib::to_multiset_contains(views(all@), id);
            vstd::seq_lib::to_multiset_contains(unsorted, id);
        }
    }
    let mut out: Vec<String> = Vec::new();
    let mut k: usize = 0;
    while k < all.len()
        invariant
            0 <= k <= all.len(),
            strictly_sorted(views(out@)),
            forall|i: int, j: int| 0 <= i < j < all@.len() ==> text_le(#[trigger] all@[i]@, #[trigger] all@[j]@),
            forall|id: Seq<char>| views(out@).contains(id) <==> views(all@.take(k as int)).contains(id),
            k > 0 ==> out@.len() > 0 && out@.last()@ == all@[k - 1]@,
        decreases all.len() - k,
    {
        let ghost before = out@;
        let fresh = out.len() == 0 || !out[out.len() - 1].eq(&all[k]);
        if fresh {
            let ghost x = all@[k as int]@;
            assert forall|m: int| 0 <= m < before.len() implies text_lt(#[trigger] views(before)[m], x) by {
                let y = views(before)[m];
                assert(views(before).contains(y));
                let p = choose|p: int| 0 <= p < k && #[trigger] views(all@.take(k as int))[p] == y;
                assert(all@[p]@ == y);
                assert(text_le(all@[p]@, x));
                if y == x {
                    assert(k > 0);
                    let last = all@[k - 1]@;
                    assert(last != x);
                    if p < k - 1 {
                        assert(text_le(all@[p]@, all@[k - 1]@));
                        assert(text_le(all@[k - 1]@, all@[k as int]@));
                        lemma_text_lt_asymmetric(x, last);
                    }
                }
            }
            out.push(all[k].clone());
            assert(views(out@) =~= views(before).push(x));
            proof { lemma_push_contains(views(before), x); }
        } else {
            assert(views(out@).contains(all@[k as int]@)) by {
                assert(views(out@)[out@.len() - 1] == all@[k as int]@);
            }
        }
        assert(views(all@.take(k + 1 as int)) =~= views(all@.take(k as int)).push(all@[k as int]@));
        proof { lemma_push_contains(views(all@.take(k as int)), all@[k as int]@); }
        assert forall|id: Seq<char>| views(out@).contains(id) <==> views(all@.take(k + 1 as int)).contains(id) by {
            assert(views(before).contains(id) <==> views(all@.take(k as int)).contains(id));
            if fresh {
                assert(views(out@) == views(before).push(all@[k as int]@));
            } else {
                assert(views(out@) == views(before));
                assert(views(before).contains(all@[k as int]@));
            }
        }
        k = k + 1;
    }
    assert(all@.take(k as int) =~= all@);
    assert forall|id: Seq<char>| views(out@).contains(id) <==> in_some(lv, id) by {
        assert(views(out@).contains(id) <==> views(all@).contains(id));
        assert(views(all@).contains(id) <==> unsorted.contains(id));
    }
    out
}

/// What one manifest text contributes: `None` where it is skipped.
pub open spec fn contribution(text: Seq<char>) -> Option<Seq<String>> {
    match ini_document(text) {
        Some(sections) => required_packages(sections),
        None => None,
    }
}

/// The contributions of the first `n` manifests, skipped ones left out.
pub open spec fn contributions_upto(texts: Seq<String>, n: nat) -> Seq<Seq<Seq<char>>>
    decreases n,
{
    if n == 0 {
        Seq::empty()
    } else {
        let before = contributions_upto(texts, (n - 1) as nat);
        match contribution(texts[n - 1]@) {
            Some(ids) => before.push(views(ids)),
            None => before,
        }
    }
}

/// The positions of the skipped manifests among the first `n`, in order.
pub open spec fn skipped_upto(texts: Seq<String>, n: nat) -> Seq<usize>
    decreases n,
{
    if n == 0 {
        Seq::empty()
    } else {
        let before = skipped_upto(texts, (n - 1) as nat);
        if contribution(texts[n - 1]@) is None {
            before.push((n - 1) as usize)
        } else {
            before
        }
    }
}

/// The manifest that `err` reports on cannot be read as one with the text `text`.
pub open spec fn reports(err: ManifestError, text: Seq<char>) -> bool {
    match err {
        ManifestError::Parse(_) => ini_document(text) is None,
        ManifestError::MissingSection(_) => ini_document(text) matches Some(sections)
            && required_packages(sections) is None,
    }
}

/// The outcome of a scan: the usage set, and each skipped manifest's position with the reason.
pub struct Scan {
    pub in_use: Vec<String>,
    pub skipped: Vec<(usize, ManifestError)>,
}

/// Reads every manifest found: a manifest that cannot be read is skipped and reported, and
/// the others still contribute; the usage set is the union of their closures.
pub fn find_packages_in_use(texts: &Vec<String>) -> (r: Scan)
    ensures
        is_usage_of(contributions_upto(texts@, texts@.len()), views(r.in_use@)),
        r.skipped@.map_values(|f: (usize, ManifestError)| f.0) == skipped_upto(texts@, texts@.len()),
        forall|k: int| 0 <= k < r.skipped@.len()
            ==> reports(#[trigger] r.skipped@[k].1, texts@[r.skipped@[k].0 as int]@),
{
    let mut lists: Vec<Vec<String>> = Vec::new();
    let mut skipped: Vec<(usize, ManifestError)> = Vec::new();
    let mut k: usize = 0;
    while k < texts.len()
        invariant
            0 <= k <= texts.len(),
            list_views(lists@) == contributions_upto(texts@, k as nat),
            skipped@.map_values(|f: (usize, ManifestError)| f.0) == skipped_upto(texts@, k as nat),
            forall|m: int| 0 <= m < skipped@.len() ==> (#[trigger] skipped@[m]).0 < k
                && reports(skipped@[m].1, texts@[skipped@[m].0 as int]@),
        decreases texts.len() - k,
    {
        let ghost lists_before = lists@;
        let ghost skipped_before = skipped@;
        match parse_required_packages(texts[k].as_str()) {
            Ok(ids) => {
                lists.push(ids);
                assert(list_views(lists@) =~= list_views(lists_before).push(views(lists@.last()@)));
            },
            Err(e) => {
                skipped.push((k, e));
                assert(skipped@.map_values(|f: (usize, ManifestError)| f.0)
                    =~= skipped_before.map_values(|f: (usize, ManifestError)| f.0).push(k));
            },
        }
        k = k + 1;
    }
    let in_use = usage_set(&lists);
    Scan { in_use, skipped }
}

} // verus!
