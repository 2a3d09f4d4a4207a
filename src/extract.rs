use vstd::prelude::*;
use crate::dom::{
    as_pos, first_below, first_of_page, node_attr, page_matches, text_or, text_or_absent,
    then_below, attr_value, Dom, Node, Pattern, Selector,
};
use crate::rating::{parse_rating, rating_of, Rating};
use crate::text::{chars_of, dashes_to_hyphens, normalize_time, path_segment, segment, string_of};

verus! {

/// The number of cast entries a title page shows.
pub const CAST_CAP: usize = 5;

/// The number of reviews a reviews page shows.
pub const REVIEW_CAP: usize = 5;

/// The number of results a search page shows.
pub const SEARCH_CAP: usize = 5;

/// One member of a title's cast: the performer and the part played.
#[derive(Clone, Debug)]
pub struct CastEntry {
    pub name: String,
    pub role: String,
}

/// What a title page says of a movie or a show.
#[derive(Clone, Debug)]
pub struct TitleRecord {
    pub title: String,
    pub rating: Option<Rating>,
    pub cast: Vec<CastEntry>,
    pub origin: String,
    pub language: String,
}

pub open spec fn by_test_id(id: Seq<char>) -> Pattern {
    Pattern::Attr("data-testid"@, id)
}

pub open spec fn by_class(class: Seq<char>) -> Pattern {
    Pattern::Attr("class"@, class)
}

/// One review: its heading, its text, the author's rating, the author
/// and the date.
#[derive(Clone, Debug)]
pub struct ReviewRecord {
    pub title: String,
    pub content: String,
    pub rating: Option<Rating>,
    pub author: String,
    pub date: String,
}

/// One search result: its title, its catalog id, its years, and the paths of
/// its title page and of its reviews page.
#[derive(Clone, Debug)]
pub struct SearchResultEntry {
    pub title: String,
    pub id: String,
    pub time: String,
    pub title_url: String,
    pub review_url: String,
}

/// The text of the page's title element.
pub open spec fn title_of(nodes: Seq<Node>) -> Seq<char> {
    text_or(
        nodes,
        first_of_page(nodes, by_test_id("hero-title-block__title"@)),
        "No title found"@,
    )
}

/// The text of the span inside the page's aggregate rating element.
pub open spec fn rate_text_of(nodes: Seq<Node>) -> Seq<char> {
    text_or(
        nodes,
        then_below(
            nodes,
            first_of_page(nodes, by_test_id("hero-rating-bar__aggregate-rating__score"@)),
            Pattern::Tag("span"@),
        ),
        "No rate found"@,
    )
}

/// The text of the first link inside the page's country of origin element.
pub open spec fn origin_of(nodes: Seq<Node>) -> Seq<char> {
    text_or(
        nodes,
        then_below(
            nodes,
            first_of_page(nodes, by_test_id("title-details-origin"@)),
            Pattern::Tag("a"@),
        ),
        "No origin found"@,
    )
}

/// The text of the first link inside the page's languages element.
pub open spec fn language_of(nodes: Seq<Node>) -> Seq<char> {
    text_or(
        nodes,
        then_below(
            nodes,
            first_of_page(nodes, by_test_id("title-details-languages"@)),
            Pattern::Tag("a"@),
        ),
        "No language found"@,
    )
}

/// The cast items of the page, at most `cap` of them, in document order.
pub open spec fn cast_items(nodes: Seq<Node>, cap: nat) -> Seq<int> {
    page_matches(nodes, by_test_id("title-cast-item"@), cap)
}

/// The performer named in the cast item at `c`.
pub open spec fn cast_name_of(nodes: Seq<Node>, c: int) -> Seq<char> {
    text_or(nodes, first_below(nodes, c, by_test_id("title-cast-item__actor"@)), "No name found"@)
}

/// The part named in the cast item at `c`.
pub open spec fn cast_role_of(nodes: Seq<Node>, c: int) -> Seq<char> {
    text_or(
        nodes,
        then_below(
            nodes,
            first_below(nodes, c, by_test_id("cast-item-characters-link"@)),
            Pattern::Tag("span"@),
        ),
        "No role found"@,
    )
}

/// The cast entries are those of the first `cap` cast items, in order.
pub open spec fn cast_matches(cast: Seq<CastEntry>, nodes: Seq<Node>, cap: nat) -> bool {
    &&& cast.len() == cast_items(nodes, cap).len()
    &&& forall|k: int|
        0 <= k < cast.len() ==> (#[trigger] cast[k]).name@ == cast_name_of(
            nodes,
            cast_items(nodes, cap)[k],
        ) && cast[k].role@ == cast_role_of(nodes, cast_items(nodes, cap)[k])
}

/// The record holds what the title page says, with at most `cap` cast entries.
pub open spec fn info_matches(r: TitleRecord, nodes: Seq<Node>, cap: nat) -> bool {
    &&& r.title@ == title_of(nodes)
    &&& r.rating == rating_of(rate_text_of(nodes))
    &&& cast_matches(r.cast@, nodes, cap)
    &&& r.origin@ == origin_of(nodes)
    &&& r.language@ == language_of(nodes)
}

/// The title of the page, trimmed, or `"No title found"`.
pub fn get_title(dom: &Dom) -> (r: String)
    ensures
        r@ == title_of(dom.nodes@),
{
    let found = dom.first_of_page(&Selector::attr("data-testid", "hero-title-block__title"));
    text_or_absent(dom, found, "No title found")
}

/// The aggregate rating of the page as text, trimmed, or `"No rate found"`.
pub fn get_rate(dom: &Dom) -> (r: String)
    ensures
        r@ == rate_text_of(dom.nodes@),
{
    let block = dom.first_of_page(
        &Selector::attr("data-testid", "hero-rating-bar__aggregate-rating__score"),
    );
    let found = dom.then_below(block, &Selector::tag("span"));
    text_or_absent(dom, found, "No rate found")
}

/// The first `cap` cast entries of the page, in document order.
pub fn get_cast(dom: &Dom, cap: usize) -> (r: Vec<CastEntry>)
    ensures
        cast_matches(r@, dom.nodes@, cap as nat),
        r@.len() <= cap,
{
    let items = dom.page_matches(&Selector::attr("data-testid", "title-cast-item"), cap);
    let actor = Selector::attr("data-testid", "title-cast-item__actor");
    let chars = Selector::attr("data-testid", "cast-item-characters-link");
    let span = Selector::tag("span");
    let mut cast: Vec<CastEntry> = Vec::new();
    let mut k: usize = 0;
    while k < items.len()
        invariant
            k <= items@.len(),
            items@.len() == cast_items(dom.nodes@, cap as nat).len(),
            forall|j: int|
                0 <= j < items@.len() ==> #[trigger] items@[j] as int == cast_items(
                    dom.nodes@,
                    cap as nat,
                )[j],
            forall|j: int| 0 <= j < items@.len() ==> #[trigger] items@[j] < dom.nodes@.len(),
            actor@ == by_test_id("title-cast-item__actor"@),
            chars@ == by_test_id("cast-item-characters-link"@),
            span@ == Pattern::Tag("span"@),
            cast@.len() == k,
            forall|j: int|
                0 <= j < k ==> (#[trigger] cast@[j]).name@ == cast_name_of(
                    dom.nodes@,
                    cast_items(dom.nodes@, cap as nat)[j],
                ) && cast@[j].role@ == cast_role_of(
                    dom.nodes@,
                    cast_items(dom.nodes@, cap as nat)[j],
                ),
        decreases items@.len() - k,
    {
        let c = items[k];
        let name = text_or_absent(dom, dom.first_below(c, &actor), "No name found");
        let link = dom.first_below(c, &chars);
        let role = text_or_absent(dom, dom.then_below(link, &span), "No role found");
        cast.push(CastEntry { name, role });
        k += 1;
    }
    cast
}

/// The country of origin of the page, trimmed, or `"No origin found"`.
pub fn get_origin(dom: &Dom) -> (r: String)
    ensures
        r@ == origin_of(dom.nodes@),
{
    let block = dom.first_of_page(&Selector::attr("data-testid", "title-details-origin"));
    let found = dom.then_below(block, &Selector::tag("a"));
    text_or_absent(dom, found, "No origin found")
}

/// The primary language of the page, trimmed, or `"No language found"`.
pub fn get_language(dom: &Dom) -> (r: String)
    ensures
        r@ == language_of(dom.nodes@),
{
    let block = dom.first_of_page(&Selector::attr("data-testid", "title-details-languages"));
    let found = dom.then_below(block, &Selector::tag("a"));
    text_or_absent(dom, found, "No language found")
}

/// Everything a title page says, with at most `cast_cap` cast entries. A
/// rating text that is not a decimal gives no rating.
pub fn parse_info(dom: &Dom, cast_cap: usize) -> (r: TitleRecord)
    ensures
        info_matches(r, dom.nodes@, cast_cap as nat),
        r.cast@.len() <= cast_cap,
{
    let title = get_title(dom);
    let rate = get_rate(dom);
    let rating = parse_rating(rate.as_str());
    let cast = get_cast(dom, cast_cap);
    let origin = get_origin(dom);
    let language = get_language(dom);
    TitleRecord { title, rating, cast, origin, language }
}

/// The review containers of the page, at most `cap` of them, in document order.
pub open spec fn review_items(nodes: Seq<Node>, cap: nat) -> Seq<int> {
    page_matches(nodes, by_class("review-container"@), cap)
}

/// The text of the first element of class `class` in the review at `c`.
pub open spec fn review_field(nodes: Seq<Node>, c: int, class: Seq<char>, absent: Seq<char>) -> Seq<
    char,
> {
    text_or(nodes, first_below(nodes, c, by_class(class)), absent)
}

/// The text of the author's rating in the review at `c`.
pub open spec fn review_rate_text(nodes: Seq<Node>, c: int) -> Seq<char> {
    text_or(
        nodes,
        then_below(
            nodes,
            first_below(nodes, c, by_class("rating-other-user-rating"@)),
            Pattern::Tag("span"@),
        ),
        "No rate found"@,
    )
}

/// What the review at `c` says, field by field.
pub open spec fn review_matches(r: ReviewRecord, nodes: Seq<Node>, c: int) -> bool {
    &&& r.title@ == review_field(nodes, c, "title"@, "No title found"@)
    &&& r.author@ == review_field(nodes, c, "display-name-link"@, "No author found"@)
    &&& r.date@ == review_field(nodes, c, "review-date"@, "No date found"@)
    &&& r.content@ == review_field(nodes, c, "text show-more__control"@, "No review found"@)
    &&& r.rating == rating_of(review_rate_text(nodes, c))
}

/// The reviews are those of the first `cap` review containers, in order.
pub open spec fn reviews_match(rs: Seq<ReviewRecord>, nodes: Seq<Node>, cap: nat) -> bool {
    &&& rs.len() == review_items(nodes, cap).len()
    &&& forall|k: int|
        0 <= k < rs.len() ==> review_matches(#[trigger] rs[k], nodes, review_items(nodes, cap)[k])
}

/// The review at `c`.
fn review_at(dom: &Dom, c: usize) -> (r: ReviewRecord)
    requires
        c < dom.nodes@.len(),
    ensures
        review_matches(r, dom.nodes@, c as int),
{
    let title = text_or_absent(
        dom,
        dom.first_below(c, &Selector::attr("class", "title")),
        "No title found",
    );
    let author = text_or_absent(
        dom,
        dom.first_below(c, &Selector::attr("class", "display-name-link")),
        "No author found",
    );
    let date = text_or_absent(
        dom,
        dom.first_below(c, &Selector::attr("class", "review-date")),
        "No date found",
    );
    let content = text_or_absent(
        dom,
        dom.first_below(c, &Selector::attr("class", "text show-more__control")),
        "No review found",
    );
    let block = dom.first_below(c, &Selector::attr("class", "rating-other-user-rating"));
    let rate = text_or_absent(dom, dom.then_below(block, &Selector::tag("span")), "No rate found");
    let rating = parse_rating(rate.as_str());
    ReviewRecord { title, content, rating, author, date }
}

/// The first `cap` reviews of the page, in document order. A rating text
/// that is not a decimal gives a review without a rating.
pub fn parse_reviews(dom: &Dom, cap: usize) -> (r: Vec<ReviewRecord>)
    ensures
        reviews_match(r@, dom.nodes@, cap as nat),
        r@.len() <= cap,
{
    let items = dom.page_matches(&Selector::attr("class", "review-container"), cap);
    let mut reviews: Vec<ReviewRecord> = Vec::new();
    let mut k: usize = 0;
    while k < items.len()
        invariant
            k <= items@.len(),
            items@.len() == review_items(dom.nodes@, cap as nat).len(),
            forall|j: int|
                0 <= j < items@.len() ==> #[trigger] items@[j] as int == review_items(
                    dom.nodes@,
                    cap as nat,
                )[j],
            forall|j: int| 0 <= j < items@.len() ==> #[trigger] items@[j] < dom.nodes@.len(),
            reviews@.len() == k,
            forall|j: int|
                0 <= j < k ==> review_matches(
                    #[trigger] reviews@[j],
                    dom.nodes@,
                    review_items(dom.nodes@, cap as nat)[j],
                ),
        decreases items@.len() - k,
    {
        let review = review_at(dom, items[k]);
        reviews.push(review);
        k += 1;
    }
    reviews
}

/// The search result containers of the page, at most `cap` of them, in document order.
pub open spec fn result_items(nodes: Seq<Node>, cap: nat) -> Seq<int> {
    page_matches(nodes, by_class("ipc-metadata-list-summary-item__c"@), cap)
}

/// The first element inside `tag` of the heading of the result at `c`.
pub open spec fn heading_part(nodes: Seq<Node>, c: int, tag: Seq<char>) -> Option<int> {
    then_below(
        nodes,
        first_below(nodes, c, by_class("ipc-metadata-list-summary-item__tc"@)),
        Pattern::Tag(tag),
    )
}

/// The link target of the result at `c`.
pub open spec fn link_of(nodes: Seq<Node>, c: int) -> Seq<char> {
    match heading_part(nodes, c, "a"@) {
        Some(j) => match node_attr(nodes[j], "href"@) {
            Some(v) => v,
            None => "No link found"@,
        },
        None => "No link found"@,
    }
}

/// The catalog id in a link: its third `/`-separated segment.
pub open spec fn id_of_link(link: Seq<char>) -> Seq<char> {
    match segment(link, 2) {
        Some(t) => t,
        None => "No link found"@,
    }
}

/// What the result at `c` says, field by field.
pub open spec fn result_matches(r: SearchResultEntry, nodes: Seq<Node>, c: int) -> bool {
    &&& r.title@ == text_or(nodes, heading_part(nodes, c, "a"@), "No title found"@)
    &&& r.id@ == id_of_link(link_of(nodes, c))
    &&& r.time@ == dashes_to_hyphens(
        text_or(nodes, heading_part(nodes, c, "label"@), "No time found"@),
    )
    &&& r.title_url@ == "/title/"@ + r.id@
    &&& r.review_url@ == "/reviews/"@ + r.id@
}

/// The results are those of the first `cap` result containers, in order.
pub open spec fn results_match(rs: Seq<SearchResultEntry>, nodes: Seq<Node>, cap: nat) -> bool {
    &&& rs.len() == result_items(nodes, cap).len()
    &&& forall|k: int|
        0 <= k < rs.len() ==> result_matches(#[trigger] rs[k], nodes, result_items(nodes, cap)[k])
}

/// The catalog id in a link (its third `/`-separated segment), or
/// `"No link found"` when the link has fewer than three segments.
pub fn id_from_link(link: &str) -> (r: String)
    ensures
        r@ == id_of_link(link@),
{
    match path_segment(link, 2) {
        Some(t) => t,
        None => "No link found".to_owned(),
    }
}

/// `prefix` followed by `rest`.
fn joined(prefix: &str, rest: &String) -> (r: String)
    ensures
        r@ == prefix@ + rest@,
{
    let mut v = chars_of(prefix);
    let mut w = chars_of(rest.as_str());
    v.append(&mut w);
    string_of(&v)
}

/// The result at `c`.
fn result_at(dom: &Dom, c: usize) -> (r: SearchResultEntry)
    requires
        c < dom.nodes@.len(),
    ensures
        result_matches(r, dom.nodes@, c as int),
{
    let heading = dom.first_below(c, &Selector::attr("class", "ipc-metadata-list-summary-item__tc"));
    let anchor = dom.then_below(heading, &Selector::tag("a"));
    let title = text_or_absent(dom, anchor, "No title found");
    let link = match anchor {
        Some(j) => match attr_value(dom, j, "href") {
            Some(v) => v,
            None => "No link found".to_owned(),
        },
        None => "No link found".to_owned(),
    };
    let id = id_from_link(link.as_str());
    let label = dom.then_below(heading, &Selector::tag("label"));
    let time_text = text_or_absent(dom, label, "No time found");
    let time = normalize_time(time_text.as_str());
    let title_url = joined("/title/", &id);
    let review_url = joined("/reviews/", &id);
    SearchResultEntry { title, id, time, title_url, review_url }
}

/// The first `cap` search results of the page, in document order.
pub fn search_result(dom: &Dom, cap: usize) -> (r: Vec<SearchResultEntry>)
    ensures
        results_match(r@, dom.nodes@, cap as nat),
        r@.len() <= cap,
{
    let items = dom.page_matches(&Selector::attr("class", "ipc-metadata-list-summary-item__c"), cap);
    let mut results: Vec<SearchResultEntry> = Vec::new();
    let mut k: usize = 0;
    while k < items.len()
        invariant
            k <= items@.len(),
            items@.len() == result_items(dom.nodes@, cap as nat).len(),
            forall|j: int|
                0 <= j < items@.len() ==> #[trigger] items@[j] as int == result_items(
                    dom.nodes@,
                    cap as nat,
                )[j],
            forall|j: int| 0 <= j < items@.len() ==> #[trigger] items@[j] < dom.nodes@.len(),
            results@.len() == k,
            forall|j: int|
                0 <= j < k ==> result_matches(
                    #[trigger] results@[j],
                    dom.nodes@,
                    result_items(dom.nodes@, cap as nat)[j],
                ),
        decreases items@.len() - k,
    {
        let entry = result_at(dom, items[k]);
        results.push(entry);
        k += 1;
    }
    results
}

} // verus!
