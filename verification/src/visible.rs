//! The derived dialog view: the dialog list filtered by the search query
//! (case-insensitive substring on titles) and, in alphabetical mode,
//! stably sorted by lowercased title with ties broken by id. The view is
//! recomputed on demand and never stored.

use vstd::prelude::*;
use crate::model::DialogSummary;
use crate::state::SortMode;
use crate::text::{
    chars_eq,
    chars_lt,
    chars_vec,
    contains_chars,
    contains_seq,
    lex_lt,
    lower_of,
    lowercase,
};

verus! {

/// Whether a title matches the query: an empty query matches every title,
/// otherwise the lowercased query must occur in the lowercased title.
pub open spec fn title_matches(title: Seq<char>, query: Seq<char>) -> bool {
    query.len() == 0 || contains_seq(lower_of(title), lower_of(query))
}

/// The dialogs passing the query filter, kept in delivery order.
pub open spec fn filtered_dialogs(dialogs: Seq<DialogSummary>, query: Seq<char>) -> Seq<
    DialogSummary,
>
    decreases dialogs.len(),
{
    if dialogs.len() == 0 {
        Seq::empty()
    } else {
        let rest = filtered_dialogs(dialogs.drop_last(), query);
        if title_matches(dialogs.last().title@, query) {
            rest.push(dialogs.last())
        } else {
            rest
        }
    }
}

/// Sort-key order: lowercased title lexicographically, ties by id.
pub open spec fn dialog_le(a: DialogSummary, b: DialogSummary) -> bool {
    ||| lex_lt(lower_of(a.title@), lower_of(b.title@))
    ||| (lower_of(a.title@) == lower_of(b.title@) && a.id <= b.id)
}

/// Insert `d` behind every element that is at or below it; an element
/// arriving later therefore lands after the equal keys already placed.
pub open spec fn insert_sorted(s: Seq<DialogSummary>, d: DialogSummary) -> Seq<DialogSummary>
    decreases s.len(),
{
    if s.len() == 0 {
        seq![d]
    } else if dialog_le(s.last(), d) {
        s.push(d)
    } else {
        insert_sorted(s.drop_last(), d).push(s.last())
    }
}

/// Stable insertion sort by `dialog_le`.
pub open spec fn sort_dialogs(s: Seq<DialogSummary>) -> Seq<DialogSummary>
    decreases s.len(),
{
    if s.len() == 0 {
        Seq::empty()
    } else {
        insert_sorted(sort_dialogs(s.drop_last()), s.last())
    }
}

/// The visible dialog view: the filter, then the order the sort mode asks
/// for.
pub open spec fn visible_dialogs_of(
    dialogs: Seq<DialogSummary>,
    query: Seq<char>,
    sort: SortMode,
) -> Seq<DialogSummary> {
    let f = filtered_dialogs(dialogs, query);
    if sort == SortMode::Alphabetical {
        sort_dialogs(f)
    } else {
        f
    }
}

/// The ids of the visible dialogs, in view order.
pub open spec fn visible_ids_of(
    dialogs: Seq<DialogSummary>,
    query: Seq<char>,
    sort: SortMode,
) -> Seq<i64> {
    visible_dialogs_of(dialogs, query, sort).map_values(|d: DialogSummary| d.id)
}

/// Every pair of view positions is ordered by the dialog sort key.
pub open spec fn dialogs_sorted(s: Seq<DialogSummary>) -> bool {
    forall|i: int, j: int| 0 <= i < j < s.len() ==> dialog_le(#[trigger] s[i], #[trigger] s[j])
}

/// Two character sequences compare one way, the other, or are equal.
proof fn lemma_lex_trichotomy(a: Seq<char>, b: Seq<char>)
    ensures
        lex_lt(a, b) || lex_lt(b, a) || a == b,
    decreases a.len(),
{
    if b.len() == 0 {
        if a.len() == 0 {
            assert(a =~= b);
        }
    } else if a.len() == 0 {
    } else if a[0] != b[0] {
        assert(a[0] as int != b[0] as int);
    } else {
        lemma_lex_trichotomy(a.drop_first(), b.drop_first());
        if !lex_lt(a, b) && !lex_lt(b, a) {
            assert(a.drop_first() == b.drop_first());
            assert forall|i: int| 0 <= i < a.len() implies a[i] == b[i] by {
                if i > 0 {
                    assert(a.drop_first()[i - 1] == a[i]);
                    assert(b.drop_first()[i - 1] == b[i]);
                }
            }
            assert(a =~= b);
        }
    }
}

/// Lexicographic order is transitive.
proof fn lemma_lex_trans(a: Seq<char>, b: Seq<char>, c: Seq<char>)
    requires
        lex_lt(a, b),
        lex_lt(b, c),
    ensures
        lex_lt(a, c),
    decreases a.len(),
{
    assert(c.len() > 0);
    if a.len() == 0 {
    } else {
        assert(b.len() > 0);
        if a[0] != b[0] {
            assert((a[0] as int) < (b[0] as int));
            if b[0] != c[0] {
                assert((b[0] as int) < (c[0] as int));
            }
            assert((a[0] as int) < (c[0] as int));
            assert(a[0] != c[0]);
        } else if b[0] != c[0] {
            assert((b[0] as int) < (c[0] as int));
            assert((a[0] as int) < (c[0] as int));
            assert(a[0] != c[0]);
        } else {
            lemma_lex_trans(a.drop_first(), b.drop_first(), c.drop_first());
        }
    }
}

/// Any two dialogs are ordered one way or the other.
proof fn lemma_dialog_le_total(a: DialogSummary, b: DialogSummary)
    ensures
        dialog_le(a, b) || dialog_le(b, a),
{
    lemma_lex_trichotomy(lower_of(a.title@), lower_of(b.title@));
}

/// The dialog order is transitive.
proof fn lemma_dialog_le_trans(a: DialogSummary, b: DialogSummary, c: DialogSummary)
    requires
        dialog_le(a, b),
        dialog_le(b, c),
    ensures
        dialog_le(a, c),
{
    let ka = lower_of(a.title@);
    let kb = lower_of(b.title@);
    let kc = lower_of(c.title@);
    if lex_lt(ka, kb) && lex_lt(kb, kc) {
        lemma_lex_trans(ka, kb, kc);
    }
}

/// Inserting into a sorted run keeps it sorted and adds exactly the new
/// element.
proof fn lemma_insert_sorted_props(s: Seq<DialogSummary>, d: DialogSummary)
    requires
        dialogs_sorted(s),
    ensures
        dialogs_sorted(insert_sorted(s, d)),
        insert_sorted(s, d).to_multiset() == s.to_multiset().insert(d),
        insert_sorted(s, d).len() == s.len() + 1,
    decreases s.len(),
{
    s.to_multiset_ensures();
    if s.len() == 0 {
        let t = insert_sorted(s, d);
        assert(t =~= Seq::<DialogSummary>::empty().push(d));
        Seq::<DialogSummary>::empty().to_multiset_ensures();
        assert(s =~= Seq::<DialogSummary>::empty());
        assert(t.to_multiset() =~= s.to_multiset().insert(d));
    } else if dialog_le(s.last(), d) {
        let t = s.push(d);
        assert forall|i: int, j: int| 0 <= i < j < t.len() implies dialog_le(
            #[trigger] t[i],
            #[trigger] t[j],
        ) by {
            if j < s.len() {
                assert(t[i] == s[i] && t[j] == s[j]);
            } else {
                assert(t[j] == d && t[i] == s[i]);
                if i < s.len() - 1 {
                    assert(dialog_le(s[i], s[s.len() - 1]));
                }
                lemma_dialog_le_trans(s[i], s[s.len() - 1], d);
            }
        }
        assert(t.to_multiset() =~= s.to_multiset().insert(d));
    } else {
        let dl = s.drop_last();
        let last = s.last();
        assert forall|i: int, j: int| 0 <= i < j < dl.len() implies dialog_le(
            #[trigger] dl[i],
            #[trigger] dl[j],
        ) by {
            assert(dl[i] == s[i] && dl[j] == s[j]);
        }
        lemma_insert_sorted_props(dl, d);
        let t = insert_sorted(dl, d);
        t.to_multiset_ensures();
        dl.to_multiset_ensures();
        lemma_dialog_le_total(last, d);
        // every element of the inserted run stays at or below the old last
        assert forall|i: int| 0 <= i < t.len() implies dialog_le(#[trigger] t[i], last) by {
            assert(t.contains(t[i]));
            assert(t.to_multiset().count(t[i]) > 0);
            if t[i] == d {
                assert(dialog_le(d, last));
            } else {
                assert(dl.to_multiset().insert(d).count(t[i]) > 0);
                assert(dl.to_multiset().count(t[i]) > 0);
                assert(dl.contains(t[i]));
                let k = choose|k: int| 0 <= k < dl.len() && dl[k] == t[i];
                assert(s[k] == dl[k]);
                if k < s.len() - 1 {
                    assert(dialog_le(s[k], s[s.len() - 1]));
                } else {
                    assert(false);
                }
            }
        }
        let u = t.push(last);
        assert(insert_sorted(s, d) == u);
        assert forall|i: int, j: int| 0 <= i < j < u.len() implies dialog_le(
            #[trigger] u[i],
            #[trigger] u[j],
        ) by {
            if j < t.len() {
                assert(u[i] == t[i] && u[j] == t[j]);
            } else {
                assert(u[j] == last && u[i] == t[i]);
            }
        }
        // multisets: pushing the old last after inserting `d` adds the same
        // two elements as inserting `d` after pushing the old last
        assert(u.to_multiset() =~= t.to_multiset().insert(last));
        assert(s =~= dl.push(last));
        assert(s.to_multiset() == dl.push(last).to_multiset());
        assert(dl.push(last).to_multiset() =~= dl.to_multiset().insert(last));
        assert(u.to_multiset() =~= s.to_multiset().insert(d));
    }
}

proof fn lemma_sort_dialogs_props(s: Seq<DialogSummary>)
    ensures
        dialogs_sorted(sort_dialogs(s)),
        sort_dialogs(s).to_multiset() == s.to_multiset(),
    decreases s.len(),
{
    if s.len() == 0 {
        assert(sort_dialogs(s) =~= s);
    } else {
        let dl = s.drop_last();
        lemma_sort_dialogs_props(dl);
        lemma_insert_sorted_props(sort_dialogs(dl), s.last());
        dl.to_multiset_ensures();
        assert(s =~= dl.push(s.last()));
        assert(dl.push(s.last()).to_multiset() =~= dl.to_multiset().insert(s.last()));
        assert(sort_dialogs(s).to_multiset() =~= s.to_multiset());
    }
}

/// The view-order law. The alphabetical view is a permutation of the
/// filtered dialogs, ordered by lowercased title with ties broken by id;
/// the delivery-order view is exactly the filtered list, so it keeps the
/// backend's order.
pub proof fn lemma_visible_view_order(dialogs: Seq<DialogSummary>, query: Seq<char>)
    ensures
        dialogs_sorted(visible_dialogs_of(dialogs, query, SortMode::Alphabetical)),
        visible_dialogs_of(dialogs, query, SortMode::Alphabetical).to_multiset()
            == filtered_dialogs(dialogs, query).to_multiset(),
        visible_dialogs_of(dialogs, query, SortMode::Recent) == filtered_dialogs(dialogs, query),
{
    lemma_sort_dialogs_props(filtered_dialogs(dialogs, query));
}

/// Whether `title` matches `query`, by lowercasing both.
pub fn query_matches(title: &str, query: &str) -> (r: bool)
    ensures
        r == title_matches(title@, query@),
{
    if query.is_empty() {
        return true;
    }
    let lt = lowercase(title);
    let lq = lowercase(query);
    let ct = chars_vec(lt.as_str());
    let cq = chars_vec(lq.as_str());
    contains_chars(&ct, &cq)
}

/// `dialog_le` on precomputed lowercase keys.
fn key_le(ka: &Vec<char>, ida: i64, kb: &Vec<char>, idb: i64) -> (r: bool)
    ensures
        r == (lex_lt(ka@, kb@) || (ka@ == kb@ && ida <= idb)),
{
    if chars_lt(ka, kb) {
        true
    } else if chars_eq(ka, kb) {
        ida <= idb
    } else {
        false
    }
}

/// Where scanning from the right stops is exactly where `insert_sorted`
/// places the element.
proof fn lemma_insert_sorted_at(s: Seq<DialogSummary>, d: DialogSummary, j: int)
    requires
        0 <= j <= s.len(),
        forall|k: int| j <= k < s.len() ==> !dialog_le(#[trigger] s[k], d),
        j > 0 ==> dialog_le(s[j - 1], d),
    ensures
        insert_sorted(s, d) == s.subrange(0, j).push(d) + s.subrange(j, s.len() as int),
    decreases s.len(),
{
    if s.len() == 0 {
        assert(insert_sorted(s, d) =~= s.subrange(0, j).push(d) + s.subrange(j, s.len() as int));
    } else if dialog_le(s.last(), d) {
        assert(j == s.len());
        assert(s.subrange(0, j) =~= s);
        assert(insert_sorted(s, d) =~= s.subrange(0, j).push(d) + s.subrange(j, s.len() as int));
    } else {
        let dl = s.drop_last();
        assert(j < s.len());
        assert forall|k: int| j <= k < dl.len() implies !dialog_le(#[trigger] dl[k], d) by {
            assert(dl[k] == s[k]);
        }
        if j > 0 {
            assert(dl[j - 1] == s[j - 1]);
        }
        lemma_insert_sorted_at(dl, d, j);
        assert(insert_sorted(s, d) == insert_sorted(dl, d).push(s.last()));
        assert(insert_sorted(dl, d).push(s.last()) =~= s.subrange(0, j).push(d) + s.subrange(
            j,
            s.len() as int,
        ));
    }
}

/// The filtered dialogs, in delivery order.
fn filter_dialogs(dialogs: &Vec<DialogSummary>, query: &str) -> (r: Vec<DialogSummary>)
    ensures
        r@ == filtered_dialogs(dialogs@, query@),
{
    let n = dialogs.len();
    let mut r: Vec<DialogSummary> = Vec::new();
    let mut i: usize = 0;
    while i < n
        invariant
            n == dialogs@.len(),
            i <= n,
            r@ == filtered_dialogs(dialogs@.subrange(0, i as int), query@),
        decreases n - i,
    {
        proof {
            let next = dialogs@.subrange(0, i as int + 1);
            assert(next.drop_last() =~= dialogs@.subrange(0, i as int));
            assert(next.last() == dialogs@[i as int]);
        }
        if query_matches(dialogs[i].title.as_str(), query) {
            r.push(dialogs[i].clone());
        }
        i = i + 1;
    }
    proof {
        assert(dialogs@.subrange(0, n as int) =~= dialogs@);
    }
    r
}

/// The filtered dialogs in stable sorted order.
fn sorted_dialogs(f: &Vec<DialogSummary>) -> (r: Vec<DialogSummary>)
    ensures
        r@ == sort_dialogs(f@),
{
    let n = f.len();
    let mut out: Vec<DialogSummary> = Vec::new();
    let mut keys: Vec<Vec<char>> = Vec::new();
    let mut i: usize = 0;
    while i < n
        invariant
            n == f@.len(),
            i <= n,
            out@ == sort_dialogs(f@.subrange(0, i as int)),
            keys@.len() == out@.len(),
            forall|k: int| 0 <= k < out@.len() ==> #[trigger] keys@[k]@ == lower_of(out@[k].title@),
        decreases n - i,
    {
        let d = f[i].clone();
        let lk = lowercase(d.title.as_str());
        let kd = chars_vec(lk.as_str());
        let ghost prev = out@;
        let ghost prev_keys = keys@;
        let mut j: usize = out.len();
        loop
            invariant
                out@ == prev,
                keys@ == prev_keys,
                keys@.len() == out@.len(),
                forall|k: int|
                    0 <= k < out@.len() ==> #[trigger] keys@[k]@ == lower_of(out@[k].title@),
                kd@ == lower_of(d.title@),
                j <= out@.len(),
                forall|k: int| j <= k < out@.len() ==> !dialog_le(#[trigger] out@[k], d),
            ensures
                out@ == prev,
                keys@ == prev_keys,
                j <= out@.len(),
                forall|k: int| j <= k < out@.len() ==> !dialog_le(#[trigger] out@[k], d),
                j == 0 || dialog_le(out@[j - 1], d),
            decreases j,
        {
            if j == 0 {
                break;
            }
            if key_le(&keys[j - 1], out[j - 1].id, &kd, d.id) {
                break;
            }
            j = j - 1;
        }
        proof {
            lemma_insert_sorted_at(prev, d, j as int);
        }
        out.insert(j, d);
        keys.insert(j, kd);
        proof {
            let next = f@.subrange(0, i as int + 1);
            assert(next.drop_last() =~= f@.subrange(0, i as int));
            assert(next.last() == f@[i as int]);
            assert(out@ == insert_sorted(prev, f@[i as int]));
            prev_keys.insert_ensures(j as int, kd);
            prev.insert_ensures(j as int, f@[i as int]);
            assert forall|k: int| 0 <= k < out@.len() implies #[trigger] keys@[k]@ == lower_of(
                out@[k].title@,
            ) by {
                if k < j as int {
                    assert(keys@[k] == prev_keys[k]);
                    assert(out@[k] == prev[k]);
                } else if k == j as int {
                } else {
                    assert(keys@[k] == prev_keys[k - 1]);
                    assert(out@[k] == prev[k - 1]);
                }
            }
        }
        i = i + 1;
    }
    proof {
        assert(f@.subrange(0, n as int) =~= f@);
    }
    out
}

/// The visible dialog view for the given list, query and sort mode.
pub fn compute_visible(dialogs: &Vec<DialogSummary>, query: &str, sort: SortMode) -> (r: Vec<
    DialogSummary,
>)
    ensures
        r@ == visible_dialogs_of(dialogs@, query@, sort),
{
    let f = filter_dialogs(dialogs, query);
    match sort {
        SortMode::Alphabetical => sorted_dialogs(&f),
        SortMode::Recent => f,
    }
}

/// The ids of the given dialogs, in order.
pub fn dialog_id_list(dialogs: &Vec<DialogSummary>) -> (r: Vec<i64>)
    ensures
        r@ == dialogs@.map_values(|d: DialogSummary| d.id),
{
    let n = dialogs.len();
    let mut r: Vec<i64> = Vec::new();
    let mut i: usize = 0;
    while i < n
        invariant
            n == dialogs@.len(),
            i <= n,
            r@ == dialogs@.subrange(0, i as int).map_values(|d: DialogSummary| d.id),
        decreases n - i,
    {
        r.push(dialogs[i].id);
        proof {
            assert(r@ =~= dialogs@.subrange(0, i as int + 1).map_values(
                |d: DialogSummary| d.id,
            ));
        }
        i = i + 1;
    }
    proof {
        assert(dialogs@.subrange(0, n as int) =~= dialogs@);
    }
    r
}

/// Whether `id` occurs in `ids`.
pub fn ids_contain(ids: &Vec<i64>, id: i64) -> (r: bool)
    ensures
        r == ids@.contains(id),
{
    match position_of_id(ids, id) {
        Some(i) => {
            proof {
                assert(ids@[i as int] == id);
            }
            true
        },
        None => false,
    }
}

/// Index of the first occurrence of `id` in `ids`.
pub open spec fn first_index_of(ids: Seq<i64>, id: i64) -> int
    recommends
        ids.contains(id),
    decreases ids.len(),
{
    if ids.len() == 0 {
        0
    } else if ids[0] == id {
        0
    } else {
        1 + first_index_of(ids.drop_first(), id)
    }
}

/// A position that holds `id` with no earlier occurrence is the first
/// occurrence.
pub proof fn lemma_first_index_of(ids: Seq<i64>, id: i64, i: int)
    requires
        0 <= i < ids.len(),
        ids[i] == id,
        forall|k: int| 0 <= k < i ==> ids[k] != id,
    ensures
        first_index_of(ids, id) == i,
        ids.contains(id),
    decreases i,
{
    if i > 0 {
        let tail = ids.drop_first();
        assert forall|k: int| 0 <= k < i - 1 implies tail[k] != id by {
            assert(tail[k] == ids[k + 1]);
        }
        assert(tail[i - 1] == ids[i]);
        lemma_first_index_of(tail, id, i - 1);
    }
}

/// First position of `id` in `ids`, if present.
pub fn position_of_id(ids: &Vec<i64>, id: i64) -> (r: Option<usize>)
    ensures
        match r {
            Some(i) => i < ids@.len() && ids@[i as int] == id && forall|k: int|
                0 <= k < i ==> ids@[k] != id,
            None => !ids@.contains(id),
        },
{
    let n = ids.len();
    let mut i: usize = 0;
    while i < n
        invariant
            n == ids@.len(),
            i <= n,
            forall|k: int| 0 <= k < i ==> ids@[k] != id,
        decreases n - i,
    {
        if ids[i] == id {
            return Some(i);
        }
        i = i + 1;
    }
    proof {
        assert(!ids@.contains(id)) by {
            if ids@.contains(id) {
                let k = choose|k: int| 0 <= k < ids@.len() && ids@[k] == id;
                assert(false);
            }
        }
    }
    None
}

} // verus!

