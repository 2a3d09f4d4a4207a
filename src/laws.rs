//! What holds of every page: properties of the extractors proved over their contracts.
use vstd::prelude::*;
use crate::dom::{
    first_in, first_of_page, matches_in, node_matches, node_text, page_matches, Node,
    Pattern,
};
use crate::extract::{
    by_class, by_test_id, id_of_link, info_matches, results_match, review_items, reviews_match,
    title_of, TitleRecord, ReviewRecord, SearchResultEntry,
};
use crate::rating::{is_digit, rating_of, number_parts, digit_run};
use crate::text::{is_white, lemma_trimmed_has_no_outer_white, segment, slashes, trimmed};

verus! {

proof fn lemma_first_in_none(nodes: Seq<Node>, lo: int, hi: int, pat: Pattern)
    requires
        forall|i: int| lo <= i < hi ==> !node_matches(#[trigger] nodes[i], pat),
    ensures
        first_in(nodes, lo, hi, pat) is None,
    decreases hi - lo,
{
    if lo < hi {
        lemma_first_in_none(nodes, lo + 1, hi, pat);
    }
}

proof fn lemma_matches_in_none(nodes: Seq<Node>, lo: int, hi: int, pat: Pattern)
    requires
        forall|i: int| lo <= i < hi ==> !node_matches(#[trigger] nodes[i], pat),
    ensures
        matches_in(nodes, lo, hi, pat).len() == 0,
    decreases hi - lo,
{
    if lo < hi {
        lemma_matches_in_none(nodes, lo, hi - 1, pat);
    }
}

/// A page with no title element has the title `"No title found"`.
pub proof fn law_missing_title(nodes: Seq<Node>)
    requires
        forall|i: int|
            0 <= i < nodes.len() ==> !node_matches(
                #[trigger] nodes[i],
                by_test_id("hero-title-block__title"@),
            ),
    ensures
        title_of(nodes) == "No title found"@,
{
    lemma_first_in_none(nodes, 0, nodes.len() as int, by_test_id("hero-title-block__title"@));
}

/// The title read from a title element is that element's text with leading
/// and trailing white space removed: it neither starts nor ends with white space.
pub proof fn law_title_trimmed(nodes: Seq<Node>, i: int)
    requires
        first_of_page(nodes, by_test_id("hero-title-block__title"@)) == Some(i),
    ensures
        title_of(nodes) == trimmed(node_text(nodes, i)),
        title_of(nodes).len() > 0 ==> !is_white(title_of(nodes)[0]) && !is_white(
            title_of(nodes).last(),
        ),
{
    lemma_trimmed_has_no_outer_white(node_text(nodes, i));
}

/// A title element whose text neither starts nor ends with white space
/// gives exactly that text as the title.
pub proof fn law_clean_title_unchanged(nodes: Seq<Node>, i: int)
    requires
        first_of_page(nodes, by_test_id("hero-title-block__title"@)) == Some(i),
        node_text(nodes, i).len() == 0 || (!is_white(node_text(nodes, i)[0]) && !is_white(
            node_text(nodes, i).last(),
        )),
    ensures
        title_of(nodes) == node_text(nodes, i),
{
    let t = node_text(nodes, i);
    assert(crate::text::trim_start(t) == t);
    assert(crate::text::trim_end(t) == t);
}

/// A list read from a page holds the first `cap` matching containers in
/// document order, and no more than `cap` of them, however many the page holds.
pub proof fn law_lists_capped(nodes: Seq<Node>, pat: Pattern, cap: nat)
    ensures
        page_matches(nodes, pat, cap).len() <= cap,
        page_matches(nodes, pat, cap).len() == if matches_in(nodes, 0, nodes.len() as int, pat).len()
            <= cap {
            matches_in(nodes, 0, nodes.len() as int, pat).len()
        } else {
            cap
        },
        page_matches(nodes, pat, cap) == matches_in(nodes, 0, nodes.len() as int, pat).take(
            page_matches(nodes, pat, cap).len() as int,
        ),
{
    let all = matches_in(nodes, 0, nodes.len() as int, pat);
    if all.len() <= cap {
        assert(all.take(all.len() as int) =~= all);
    }
}

/// A rating text that does not start like a number (with a digit, a point
/// or `+`), such as the absence text `"No rate found"`, gives no rating
/// rather than a failure.
pub proof fn law_non_numeric_rating_is_absent(s: Seq<char>)
    requires
        s.len() == 0 || (!is_digit(s[0]) && s[0] != '.' && s[0] != '+'),
    ensures
        rating_of(s) is None,
{
    assert(digit_run(s) == 0);
    assert(number_parts(s) is None);
}

/// A link with fewer than three `/`-separated segments gives the id `"No link found"`.
pub proof fn law_short_link_has_no_id(link: Seq<char>)
    requires
        slashes(link, link.len() as int) < 2,
    ensures
        id_of_link(link) == "No link found"@,
{
    assert(segment(link, 2) is None);
}

/// Two title records read from one page are the same.
pub proof fn law_title_record_determined(
    nodes: Seq<Node>,
    cap: nat,
    a: TitleRecord,
    b: TitleRecord,
)
    requires
        info_matches(a, nodes, cap),
        info_matches(b, nodes, cap),
    ensures
        a.title@ == b.title@,
        a.rating == b.rating,
        a.origin@ == b.origin@,
        a.language@ == b.language@,
        a.cast@.len() == b.cast@.len(),
        forall|k: int|
            0 <= k < a.cast@.len() ==> (#[trigger] a.cast@[k]).name@ == b.cast@[k].name@
                && a.cast@[k].role@ == b.cast@[k].role@,
{
}

/// Two lists of reviews read from one page are the same.
pub proof fn law_reviews_determined(
    nodes: Seq<Node>,
    cap: nat,
    a: Seq<ReviewRecord>,
    b: Seq<ReviewRecord>,
)
    requires
        reviews_match(a, nodes, cap),
        reviews_match(b, nodes, cap),
    ensures
        a.len() == b.len(),
        forall|k: int|
            0 <= k < a.len() ==> (#[trigger] a[k]).title@ == b[k].title@ && a[k].content@
                == b[k].content@ && a[k].rating == b[k].rating && a[k].author@ == b[k].author@
                && a[k].date@ == b[k].date@,
{
    assert forall|k: int| 0 <= k < a.len() implies (#[trigger] a[k]).title@ == b[k].title@
        && a[k].content@ == b[k].content@ && a[k].rating == b[k].rating && a[k].author@
        == b[k].author@ && a[k].date@ == b[k].date@ by {
        assert(crate::extract::review_matches(a[k], nodes, review_items(nodes, cap)[k]));
        assert(crate::extract::review_matches(b[k], nodes, review_items(nodes, cap)[k]));
    }
}

/// Two lists of search results read from one page are the same.
pub proof fn law_results_determined(
    nodes: Seq<Node>,
    cap: nat,
    a: Seq<SearchResultEntry>,
    b: Seq<SearchResultEntry>,
)
    requires
        results_match(a, nodes, cap),
        results_match(b, nodes, cap),
    ensures
        a.len() == b.len(),
        forall|k: int|
            0 <= k < a.len() ==> (#[trigger] a[k]).title@ == b[k].title@ && a[k].id@ == b[k].id@
                && a[k].time@ == b[k].time@ && a[k].title_url@ == b[k].title_url@
                && a[k].review_url@ == b[k].review_url@,
{
    assert forall|k: int| 0 <= k < a.len() implies (#[trigger] a[k]).title@ == b[k].title@
        && a[k].id@ == b[k].id@ && a[k].time@ == b[k].time@ && a[k].title_url@
        == b[k].title_url@ && a[k].review_url@ == b[k].review_url@ by {
        assert(crate::extract::result_matches(
            a[k],
            nodes,
            crate::extract::result_items(nodes, cap)[k],
        ));
        assert(crate::extract::result_matches(
            b[k],
            nodes,
            crate::extract::result_items(nodes, cap)[k],
        ));
    }
}

/// A page with no review container gives an empty list of reviews.
pub proof fn law_no_containers_no_reviews(nodes: Seq<Node>, cap: nat, rs: Seq<ReviewRecord>)
    requires
        forall|i: int|
            0 <= i < nodes.len() ==> !node_matches(#[trigger] nodes[i], by_class("review-container"@)),
        reviews_match(rs, nodes, cap),
    ensures
        rs.len() == 0,
{
    lemma_matches_in_none(nodes, 0, nodes.len() as int, by_class("review-container"@));
}

} // verus!
