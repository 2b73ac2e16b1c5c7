//! Laws of the pipeline, stated over the spec functions that the
//! executable functions' contracts use.

use vstd::prelude::*;
use crate::model::PostView;
use crate::posts::{
    in_order, insert_in_order, lemma_parsed_views_wf, parsed_views, sort_by_date, sort_in_order,
    sorted_by_date, sorted_in, spec_find_by_slug, spec_parse_post, spec_pipeline, SortDirection,
};

verus! {

broadcast use vstd::seq_lib::group_to_multiset_ensures;

/// Inserting into a sorted sequence keeps it sorted, and adds exactly the
/// inserted element.
proof fn lemma_insert_in_order(dir: SortDirection, p: PostView, s: Seq<PostView>)
    requires
        sorted_in(dir, s),
    ensures
        sorted_in(dir, insert_in_order(dir, p, s)),
        insert_in_order(dir, p, s).to_multiset() == s.to_multiset().insert(p),
    decreases s.len(),
{
    if s.len() == 0 {
        assert(seq![p] =~= Seq::<PostView>::empty().push(p));
        assert(insert_in_order(dir, p, s).to_multiset() =~= s.to_multiset().insert(p));
    } else if in_order(dir, s.last(), p) {
        let r = s.push(p);
        assert forall|a: int, b: int| 0 <= a < b < r.len() implies in_order(
            dir,
            r[a],
            r[b],
        ) by {
            if b == s.len() {
                if a < s.len() - 1 {
                    assert(in_order(dir, s[a], s[s.len() - 1]));
                }
            }
        }
        assert(insert_in_order(dir, p, s).to_multiset() =~= s.to_multiset().insert(p));
    } else {
        let dl = s.drop_last();
        assert(sorted_in(dir, dl)) by {
            assert(forall|i: int, j: int|
                0 <= i < j < dl.len() ==> in_order(dir, #[trigger] dl[i], #[trigger] dl[j]));
        }
        lemma_insert_in_order(dir, p, dl);
        let ins = insert_in_order(dir, p, dl);
        let r = ins.push(s.last());
        assert forall|a: int, b: int| 0 <= a < b < r.len() implies in_order(
            dir,
            r[a],
            r[b],
        ) by {
            if b == ins.len() {
                let x = ins[a];
                assert(ins.contains(x));
                assert(ins.to_multiset().count(x) > 0);
                assert(dl.to_multiset().count(x) > 0 || x == p);
                if x == p {
                    assert(in_order(dir, p, s.last()));
                } else {
                    assert(dl.contains(x));
                    let k = choose|k: int| 0 <= k < dl.len() && dl[k] == x;
                    assert(in_order(dir, s[k], s[s.len() - 1]));
                }
            }
        }
        assert(r.to_multiset() =~= ins.to_multiset().insert(s.last()));
        assert(s =~= dl.push(s.last()));
        assert(s.to_multiset() =~= dl.to_multiset().insert(s.last()));
        assert(r.to_multiset() =~= s.to_multiset().insert(p));
    }
}

/// Sorting in either direction yields a sequence ordered that way and
/// holding exactly the input's elements.
pub proof fn lemma_sort_in_order(dir: SortDirection, s: Seq<PostView>)
    ensures
        sorted_in(dir, sort_in_order(dir, s)),
        sort_in_order(dir, s).to_multiset() == s.to_multiset(),
    decreases s.len(),
{
    if s.len() == 0 {
    } else {
        let dl = s.drop_last();
        lemma_sort_in_order(dir, dl);
        lemma_insert_in_order(dir, s.last(), sort_in_order(dir, dl));
        assert(s =~= dl.push(s.last()));
        assert(s.to_multiset() =~= dl.to_multiset().insert(s.last()));
    }
}

/// Sorting by date yields a sorted sequence holding exactly the input's
/// elements.
pub proof fn lemma_sort_by_date(s: Seq<PostView>)
    ensures
        sorted_by_date(sort_by_date(s)),
        sort_by_date(s).to_multiset() == s.to_multiset(),
{
    lemma_sort_in_order(SortDirection::Ascending, s);
}

/// The listing the pipeline produces is sorted by date ascending,
/// whatever order the file texts were enumerated in.
pub proof fn lemma_pipeline_sorted(ts: Seq<Seq<char>>)
    ensures
        sorted_by_date(spec_pipeline(ts)),
{
    lemma_sort_by_date(parsed_views(ts));
}

/// The pipeline's output holds exactly the posts that parse: sorting
/// neither drops nor invents one.
pub proof fn lemma_pipeline_contents(ts: Seq<Seq<char>>)
    ensures
        spec_pipeline(ts).to_multiset() == parsed_views(ts).to_multiset(),
{
    lemma_sort_by_date(parsed_views(ts));
}

/// A text that does not parse contributes nothing to the parsed posts.
proof fn lemma_parsed_views_ignore(before: Seq<Seq<char>>, t: Seq<char>, after: Seq<Seq<char>>)
    requires
        spec_parse_post(t) is None,
    ensures
        parsed_views(before + seq![t] + after) == parsed_views(before + after),
    decreases after.len(),
{
    if after.len() == 0 {
        assert(before + seq![t] + after =~= (before + after).push(t));
        assert((before + after).push(t).drop_last() =~= before + after);
        assert(parsed_views(before + seq![t] + after) == parsed_views(before + after));
    } else {
        lemma_parsed_views_ignore(before, t, after.drop_last());
        let whole = before + seq![t] + after;
        let shorter = before + seq![t] + after.drop_last();
        assert(whole.drop_last() =~= shorter);
        assert(whole.last() == after.last());
        let whole2 = before + after;
        let shorter2 = before + after.drop_last();
        assert(whole2.drop_last() =~= shorter2);
        assert(whole2.last() == after.last());
        assert(parsed_views(whole) == parsed_views(whole2));
    }
}

/// A text that is not a valid post — no frontmatter, a required field
/// missing, a bad date — leaves the pipeline's output exactly as it was:
/// one bad file never fails or changes the rest of the batch.
pub proof fn lemma_invalid_text_ignored(before: Seq<Seq<char>>, t: Seq<char>, after: Seq<Seq<char>>)
    requires
        spec_parse_post(t) is None,
    ensures
        spec_pipeline(before + seq![t] + after) == spec_pipeline(before + after),
{
    lemma_parsed_views_ignore(before, t, after);
}

/// A text that does parse contributes exactly its post.
proof fn lemma_parsed_views_include(
    before: Seq<Seq<char>>,
    t: Seq<char>,
    after: Seq<Seq<char>>,
    p: PostView,
)
    requires
        spec_parse_post(t) == Some(p),
    ensures
        parsed_views(before + seq![t] + after).to_multiset() == parsed_views(
            before + after,
        ).to_multiset().insert(p),
    decreases after.len(),
{
    if after.len() == 0 {
        assert(before + seq![t] + after =~= (before + after).push(t));
        assert((before + after).push(t).drop_last() =~= before + after);
        assert(parsed_views(before + seq![t] + after) == parsed_views(before + after).push(p));
    } else {
        lemma_parsed_views_include(before, t, after.drop_last(), p);
        let whole = before + seq![t] + after;
        let shorter = before + seq![t] + after.drop_last();
        assert(whole.drop_last() =~= shorter);
        assert(whole.last() == after.last());
        let whole2 = before + after;
        let shorter2 = before + after.drop_last();
        assert(whole2.drop_last() =~= shorter2);
        assert(whole2.last() == after.last());
        match spec_parse_post(after.last()) {
            Some(q) => {
                assert(parsed_views(whole) == parsed_views(shorter).push(q));
                assert(parsed_views(whole2) == parsed_views(shorter2).push(q));
                assert(parsed_views(whole).to_multiset() =~= parsed_views(
                    whole2,
                ).to_multiset().insert(p));
            },
            None => {
                assert(parsed_views(whole) == parsed_views(shorter));
                assert(parsed_views(whole2) == parsed_views(shorter2));
            },
        }
    }
}

/// A text that is a valid post always shows up in the listing: the
/// pipeline's output over a batch holding it is the output over the rest
/// plus exactly that post, wherever in the batch the file was enumerated.
pub proof fn lemma_valid_text_included(
    before: Seq<Seq<char>>,
    t: Seq<char>,
    after: Seq<Seq<char>>,
    p: PostView,
)
    requires
        spec_parse_post(t) == Some(p),
    ensures
        spec_pipeline(before + seq![t] + after).to_multiset() == spec_pipeline(
            before + after,
        ).to_multiset().insert(p),
{
    lemma_parsed_views_include(before, t, after, p);
    lemma_sort_by_date(parsed_views(before + seq![t] + after));
    lemma_sort_by_date(parsed_views(before + after));
}

/// Every post the pipeline assembles carries a valid `YYYY-MM-DD` date:
/// date validation happens at parse time, so nothing invalid reaches the
/// sorted collection.
pub proof fn lemma_pipeline_dates_valid(ts: Seq<Seq<char>>)
    ensures
        forall|k: int|
            0 <= k < spec_pipeline(ts).len() ==> (#[trigger] spec_pipeline(ts)[k]).meta.wf(),
{
    lemma_parsed_views_wf(ts);
    lemma_sort_by_date(parsed_views(ts));
    let sorted = spec_pipeline(ts);
    let parsed = parsed_views(ts);
    assert forall|k: int| 0 <= k < sorted.len() implies (#[trigger] sorted[k]).meta.wf() by {
        let x = sorted[k];
        assert(sorted.contains(x));
        assert(sorted.to_multiset().count(x) > 0);
        assert(parsed.to_multiset().count(x) > 0);
        assert(parsed.contains(x));
        let j = choose|j: int| 0 <= j < parsed.len() && parsed[j] == x;
        assert(parsed[j].meta.wf());
    }
}

/// A parsed post names one of the batch's texts as its source.
proof fn lemma_parsed_views_sources(ts: Seq<Seq<char>>, p: PostView)
    requires
        parsed_views(ts).contains(p),
    ensures
        exists|j: int| 0 <= j < ts.len() && spec_parse_post(#[trigger] ts[j]) == Some(p),
    decreases ts.len(),
{
    let rest = parsed_views(ts.drop_last());
    match spec_parse_post(ts.last()) {
        Some(q) => {
            if q == p {
                assert(spec_parse_post(ts[ts.len() - 1]) == Some(p));
            } else {
                assert(rest.contains(p)) by {
                    let k = choose|k: int|
                        0 <= k < parsed_views(ts).len() && parsed_views(ts)[k] == p;
                    assert(rest[k] == p);
                }
                lemma_parsed_views_sources(ts.drop_last(), p);
                let j = choose|j: int|
                    0 <= j < ts.drop_last().len() && spec_parse_post(
                        #[trigger] ts.drop_last()[j],
                    ) == Some(p);
                assert(spec_parse_post(ts[j]) == Some(p));
            }
        },
        None => {
            lemma_parsed_views_sources(ts.drop_last(), p);
            let j = choose|j: int|
                0 <= j < ts.drop_last().len() && spec_parse_post(#[trigger] ts.drop_last()[j])
                    == Some(p);
            assert(spec_parse_post(ts[j]) == Some(p));
        },
    }
}

/// Every post the pipeline hands out was parsed from one of the batch's
/// file texts: its metadata is exactly that file's frontmatter and its
/// content that file's rendered body — nothing is invented.
pub proof fn lemma_post_comes_from_a_file(ts: Seq<Seq<char>>, p: PostView)
    requires
        spec_pipeline(ts).contains(p),
    ensures
        exists|j: int| 0 <= j < ts.len() && spec_parse_post(#[trigger] ts[j]) == Some(p),
{
    lemma_sort_by_date(parsed_views(ts));
    assert(spec_pipeline(ts).to_multiset().count(p) > 0);
    assert(parsed_views(ts).contains(p));
    lemma_parsed_views_sources(ts, p);
}

/// Ingestion is deterministic: two runs over the same file texts describe
/// the same collection.
pub proof fn lemma_ingestion_deterministic(
    ts: Seq<Seq<char>>,
    first: Seq<PostView>,
    second: Seq<PostView>,
)
    requires
        first == spec_pipeline(ts),
        second == spec_pipeline(ts),
    ensures
        first == second,
{
}

/// Looking a slug up finds nothing exactly when no post carries it — an
/// absent slug is answered, never an error — and otherwise finds the
/// first post carrying it.
pub proof fn lemma_find_by_slug_spec(s: Seq<PostView>, slug: Seq<char>)
    ensures
        spec_find_by_slug(s, slug) is None <==> (forall|k: int|
            0 <= k < s.len() ==> (#[trigger] s[k]).meta.slug != slug),
        spec_find_by_slug(s, slug) matches Some(p) ==> exists|i: int|
            0 <= i < s.len() && s[i] == p && p.meta.slug == slug && (forall|k: int|
                0 <= k < i ==> (#[trigger] s[k]).meta.slug != slug),
    decreases s.len(),
{
    if s.len() == 0 {
    } else if s.first().meta.slug == slug {
        let p = s.first();
        assert(s[0] == p && p.meta.slug == slug && (forall|k: int|
            0 <= k < 0 ==> (#[trigger] s[k]).meta.slug != slug));
    } else {
        let d = s.drop_first();
        lemma_find_by_slug_spec(d, slug);
        assert(forall|k: int| 0 <= k < d.len() ==> #[trigger] d[k] == s[k + 1]);
        if spec_find_by_slug(s, slug) is None {
            assert forall|k: int| 0 <= k < s.len() implies (#[trigger] s[k]).meta.slug
                != slug by {
                if k > 0 {
                    assert(d[k - 1].meta.slug != slug);
                }
            }
        } else {
            let p = spec_find_by_slug(s, slug).unwrap();
            let i = choose|i: int|
                0 <= i < d.len() && d[i] == p && p.meta.slug == slug && (forall|k: int|
                    0 <= k < i ==> (#[trigger] d[k]).meta.slug != slug);
            assert(s[i + 1] == p);
            assert forall|k: int| 0 <= k < i + 1 implies (#[trigger] s[k]).meta.slug != slug by {
                if k > 0 {
                    assert(d[k - 1].meta.slug != slug);
                }
            }
            assert(0 <= i + 1 < s.len() && s[i + 1] == p && p.meta.slug == slug && (forall|k: int|
                0 <= k < i + 1 ==> (#[trigger] s[k]).meta.slug != slug));
        }
    }
}

} // verus!
