use imdb_data::{
    get_cast, get_language, get_origin, get_rate, get_title, id_from_link, normalize_time,
    parse_info, parse_rating, parse_reviews, search_result, Attribute, Dom, Rating, CAST_CAP,
};

fn open(dom: &mut Dom, tag: &str, attrs: &[(&str, &str)]) -> usize {
    let attrs = attrs.iter().map(|(k, v)| Attribute::new(k, v)).collect();
    dom.push_element(tag, attrs)
}

/// `<tag attr>text</tag>`
fn leaf(dom: &mut Dom, tag: &str, attrs: &[(&str, &str)], text: &str) -> usize {
    let i = open(dom, tag, attrs);
    dom.push_text(text);
    dom.close(i);
    i
}

/// `<outer attr><inner>text</inner></outer>`
fn wrapped(dom: &mut Dom, attrs: &[(&str, &str)], inner: &str, text: &str) {
    let i = open(dom, "div", attrs);
    leaf(dom, inner, &[], text);
    dom.close(i);
}

fn cast_item(dom: &mut Dom, name: &str, role: &str) {
    let i = open(dom, "li", &[("data-testid", "title-cast-item")]);
    leaf(dom, "a", &[("data-testid", "title-cast-item__actor")], name);
    wrapped(dom, &[("data-testid", "cast-item-characters-link")], "span", role);
    dom.close(i);
}

fn inception() -> Dom {
    let mut dom = Dom::new();
    let root = open(&mut dom, "html", &[]);
    leaf(&mut dom, "h1", &[("data-testid", "hero-title-block__title")], "Inception");
    wrapped(&mut dom, &[("data-testid", "hero-rating-bar__aggregate-rating__score")], "span", "8.8");
    cast_item(&mut dom, "Leonardo DiCaprio", "Cobb");
    cast_item(&mut dom, "Joseph Gordon-Levitt", "Arthur");
    cast_item(&mut dom, "Elliot Page", "Ariadne");
    wrapped(&mut dom, &[("data-testid", "title-details-origin")], "a", "USA");
    wrapped(&mut dom, &[("data-testid", "title-details-languages")], "a", "English");
    dom.close(root);
    dom
}

#[test]
fn missing_title_gives_absence_text() {
    let mut dom = Dom::new();
    leaf(&mut dom, "h1", &[("data-testid", "something-else")], "Inception");
    assert_eq!(get_title(&dom), "No title found");
    assert_eq!(get_title(&Dom::new()), "No title found");
}

#[test]
fn title_is_trimmed() {
    let mut dom = Dom::new();
    leaf(&mut dom, "h1", &[("data-testid", "hero-title-block__title")], " \n\t Inception \u{a0}\n");
    assert_eq!(get_title(&dom), "Inception");
}

#[test]
fn title_joins_nested_text() {
    let mut dom = Dom::new();
    let h = open(&mut dom, "h1", &[("data-testid", "hero-title-block__title")]);
    dom.push_text("  The ");
    leaf(&mut dom, "i", &[], "Dark");
    dom.push_text(" Knight  ");
    dom.close(h);
    leaf(&mut dom, "p", &[], "after");
    assert_eq!(get_title(&dom), "The Dark Knight");
}

#[test]
fn first_title_in_document_order_wins() {
    let mut dom = Dom::new();
    leaf(&mut dom, "h1", &[("data-testid", "hero-title-block__title")], "First");
    leaf(&mut dom, "h1", &[("data-testid", "hero-title-block__title")], "Second");
    assert_eq!(get_title(&dom), "First");
}

#[test]
fn only_first_attribute_of_a_name_counts() {
    let mut dom = Dom::new();
    leaf(
        &mut dom,
        "h1",
        &[("data-testid", "other"), ("data-testid", "hero-title-block__title")],
        "Hidden",
    );
    assert_eq!(get_title(&dom), "No title found");
}

#[test]
fn cast_is_capped_in_document_order() {
    let mut dom = Dom::new();
    for k in 0..10 {
        cast_item(&mut dom, &format!("Actor {}", k), &format!("Role {}", k));
    }
    let cast = get_cast(&dom, 2);
    assert_eq!(cast.len(), 2);
    assert_eq!(cast[0].name, "Actor 0");
    assert_eq!(cast[0].role, "Role 0");
    assert_eq!(cast[1].name, "Actor 1");
    assert_eq!(cast[1].role, "Role 1");
    assert_eq!(get_cast(&dom, CAST_CAP).len(), 5);
    assert_eq!(get_cast(&dom, 20).len(), 10);
    assert_eq!(get_cast(&dom, 0).len(), 0);
}

#[test]
fn cast_entry_missing_parts_degrade_one_by_one() {
    let mut dom = Dom::new();
    let i = open(&mut dom, "li", &[("data-testid", "title-cast-item")]);
    leaf(&mut dom, "a", &[("data-testid", "title-cast-item__actor")], "Solo");
    dom.close(i);
    let j = open(&mut dom, "li", &[("data-testid", "title-cast-item")]);
    leaf(&mut dom, "a", &[("data-testid", "cast-item-characters-link")], "no span");
    dom.close(j);
    let cast = get_cast(&dom, 5);
    assert_eq!(cast.len(), 2);
    assert_eq!(cast[0].name, "Solo");
    assert_eq!(cast[0].role, "No role found");
    assert_eq!(cast[1].name, "No name found");
    assert_eq!(cast[1].role, "No role found");
}

#[test]
fn rating_parses_decimals() {
    assert_eq!(parse_rating("7.4"), Some(Rating { mantissa: 74, scale: 1 }));
    assert_eq!(parse_rating("10"), Some(Rating { mantissa: 10, scale: 0 }));
    assert_eq!(parse_rating("8.80"), Some(Rating { mantissa: 880, scale: 2 }));
    assert_eq!(parse_rating("18446744073709551615"), Some(Rating { mantissa: u64::MAX, scale: 0 }));
}

#[test]
fn rating_accepts_every_float_number_form() {
    assert_eq!(parse_rating("7."), Some(Rating { mantissa: 7, scale: 0 }));
    assert_eq!(parse_rating(".5"), Some(Rating { mantissa: 5, scale: 1 }));
    assert_eq!(parse_rating("+7"), Some(Rating { mantissa: 7, scale: 0 }));
    assert_eq!(parse_rating("1e1"), Some(Rating { mantissa: 1, scale: -1 }));
    assert_eq!(parse_rating("2.5E-3"), Some(Rating { mantissa: 25, scale: 4 }));
    assert_eq!(parse_rating("+.5e+2"), Some(Rating { mantissa: 5, scale: -1 }));
    assert_eq!(parse_rating("7.e0"), Some(Rating { mantissa: 7, scale: 0 }));
}

#[test]
fn rating_rejects_other_text() {
    assert_eq!(parse_rating("No rate found"), None);
    assert_eq!(parse_rating(""), None);
    assert_eq!(parse_rating("."), None);
    assert_eq!(parse_rating("-7"), None);
    assert_eq!(parse_rating("inf"), None);
    assert_eq!(parse_rating("NaN"), None);
    assert_eq!(parse_rating("1e"), None);
    assert_eq!(parse_rating("1e+"), None);
    assert_eq!(parse_rating("e5"), None);
    assert_eq!(parse_rating("++7"), None);
    assert_eq!(parse_rating(" 7"), None);
    assert_eq!(parse_rating("1e99999999999999999999"), None);
    assert_eq!(parse_rating("7.4.1"), None);
    assert_eq!(parse_rating("7,4"), None);
    assert_eq!(parse_rating("18446744073709551616"), None);
}

#[test]
fn rating_exact_value() {
    let r = parse_rating("7.4").unwrap();
    let value = r.mantissa as f64 / 10f64.powf(r.scale as f64);
    assert!((value - 7.4).abs() < 1e-12);
    let r = parse_rating("1e1").unwrap();
    assert_eq!(r.mantissa as f64 / 10f64.powf(r.scale as f64), 10.0);
}

#[test]
fn missing_or_bad_rating_does_not_abort_the_record() {
    let mut dom = Dom::new();
    leaf(&mut dom, "h1", &[("data-testid", "hero-title-block__title")], "Untitled");
    let info = parse_info(&dom, 2);
    assert_eq!(get_rate(&dom), "No rate found");
    assert_eq!(info.rating, None);
    assert_eq!(info.title, "Untitled");

    let mut dom = Dom::new();
    wrapped(&mut dom, &[("data-testid", "hero-rating-bar__aggregate-rating__score")], "span", "n/a");
    assert_eq!(parse_info(&dom, 2).rating, None);

    let mut dom = Dom::new();
    wrapped(&mut dom, &[("data-testid", "hero-rating-bar__aggregate-rating__score")], "span", " 7. ");
    assert_eq!(parse_info(&dom, 2).rating, Some(Rating { mantissa: 7, scale: 0 }));
}

#[test]
fn absence_texts_of_title_page() {
    let dom = Dom::new();
    assert_eq!(get_rate(&dom), "No rate found");
    assert_eq!(get_origin(&dom), "No origin found");
    assert_eq!(get_language(&dom), "No language found");
    let mut dom = Dom::new();
    leaf(&mut dom, "div", &[("data-testid", "title-details-origin")], "no link inside");
    assert_eq!(get_origin(&dom), "No origin found");
}

#[test]
fn time_dash_is_normalized() {
    assert_eq!(normalize_time("1994\u{2013}1995"), "1994-1995");
    assert_eq!(normalize_time("2010"), "2010");
    assert_eq!(normalize_time("\u{2013}\u{2013}"), "--");
}

#[test]
fn id_is_third_segment_of_link() {
    assert_eq!(id_from_link("/title/tt0111161/?ref_=fn_al_tt_1"), "tt0111161");
    assert_eq!(id_from_link("/title/tt1375666"), "tt1375666");
    assert_eq!(id_from_link("/title/"), "");
    assert_eq!(id_from_link("/title"), "No link found");
    assert_eq!(id_from_link("No link found"), "No link found");
}

#[test]
fn extraction_twice_gives_the_same() {
    let dom = inception();
    assert_eq!(get_title(&dom), get_title(&dom));
    let a = parse_info(&dom, 2);
    let b = parse_info(&dom, 2);
    assert_eq!(a.title, b.title);
    assert_eq!(a.rating, b.rating);
    assert_eq!(a.cast.len(), b.cast.len());
    for k in 0..a.cast.len() {
        assert_eq!(a.cast[k].name, b.cast[k].name);
        assert_eq!(a.cast[k].role, b.cast[k].role);
    }
    assert_eq!(a.origin, b.origin);
    assert_eq!(a.language, b.language);
}

#[test]
fn title_page_end_to_end() {
    let info = parse_info(&inception(), 2);
    assert_eq!(info.title, "Inception");
    assert_eq!(info.rating, Some(Rating { mantissa: 88, scale: 1 }));
    assert_eq!(info.cast.len(), 2);
    assert_eq!(info.cast[0].name, "Leonardo DiCaprio");
    assert_eq!(info.cast[0].role, "Cobb");
    assert_eq!(info.cast[1].name, "Joseph Gordon-Levitt");
    assert_eq!(info.cast[1].role, "Arthur");
    assert_eq!(info.origin, "USA");
    assert_eq!(info.language, "English");
}

fn review(dom: &mut Dom, title: &str, rate: Option<&str>) {
    let i = open(dom, "div", &[("class", "review-container")]);
    leaf(dom, "a", &[("class", "title")], title);
    if let Some(r) = rate {
        wrapped(dom, &[("class", "rating-other-user-rating")], "span", r);
    }
    leaf(dom, "span", &[("class", "display-name-link")], " critic ");
    leaf(dom, "span", &[("class", "review-date")], "1 May 2020");
    leaf(dom, "div", &[("class", "text show-more__control")], "Loved it.");
    dom.close(i);
}

#[test]
fn no_review_containers_gives_empty_list() {
    let mut dom = Dom::new();
    leaf(&mut dom, "div", &[("class", "title")], "not a review");
    assert!(parse_reviews(&dom, 5).is_empty());
    assert!(parse_reviews(&Dom::new(), 5).is_empty());
}

#[test]
fn reviews_are_read_and_capped() {
    let mut dom = Dom::new();
    for k in 0..7 {
        review(&mut dom, &format!("Review {}", k), Some("9"));
    }
    let reviews = parse_reviews(&dom, 5);
    assert_eq!(reviews.len(), 5);
    assert_eq!(reviews[0].title, "Review 0");
    assert_eq!(reviews[4].title, "Review 4");
    assert_eq!(reviews[0].author, "critic");
    assert_eq!(reviews[0].date, "1 May 2020");
    assert_eq!(reviews[0].content, "Loved it.");
    assert_eq!(reviews[0].rating, Some(Rating { mantissa: 9, scale: 0 }));
}

#[test]
fn review_without_rating_keeps_its_other_fields() {
    let mut dom = Dom::new();
    review(&mut dom, "Unrated", None);
    let i = open(&mut dom, "div", &[("class", "review-container")]);
    dom.close(i);
    let reviews = parse_reviews(&dom, 5);
    assert_eq!(reviews.len(), 2);
    assert_eq!(reviews[0].title, "Unrated");
    assert_eq!(reviews[0].rating, None);
    assert_eq!(reviews[1].title, "No title found");
    assert_eq!(reviews[1].author, "No author found");
    assert_eq!(reviews[1].date, "No date found");
    assert_eq!(reviews[1].content, "No review found");
    assert_eq!(reviews[1].rating, None);
}

fn result(dom: &mut Dom, title: &str, href: Option<&str>, time: &str) {
    let i = open(dom, "div", &[("class", "ipc-metadata-list-summary-item__c")]);
    let h = open(dom, "div", &[("class", "ipc-metadata-list-summary-item__tc")]);
    match href {
        Some(link) => leaf(dom, "a", &[("href", link)], title),
        None => leaf(dom, "a", &[], title),
    };
    leaf(dom, "label", &[], time);
    dom.close(h);
    dom.close(i);
}

#[test]
fn search_results_are_read() {
    let mut dom = Dom::new();
    result(&mut dom, "The Shawshank Redemption", Some("/title/tt0111161/?ref_=fn"), "1994");
    result(&mut dom, "Friends", Some("/title/tt0108778/"), "1994\u{2013}2004");
    result(&mut dom, "Nameless", None, " 2001 ");
    let results = search_result(&dom, 5);
    assert_eq!(results.len(), 3);
    assert_eq!(results[0].title, "The Shawshank Redemption");
    assert_eq!(results[0].id, "tt0111161");
    assert_eq!(results[0].title_url, "/title/tt0111161");
    assert_eq!(results[0].review_url, "/reviews/tt0111161");
    assert_eq!(results[1].time, "1994-2004");
    assert_eq!(results[2].id, "No link found");
    assert_eq!(results[2].time, "2001");
    assert_eq!(results[2].title_url, "/title/No link found");
}

#[test]
fn search_results_are_capped() {
    let mut dom = Dom::new();
    for k in 0..8 {
        result(&mut dom, &format!("T{}", k), Some("/title/tt1/"), "2000");
    }
    let results = search_result(&dom, 5);
    assert_eq!(results.len(), 5);
    assert_eq!(results[4].title, "T4");
}

#[test]
fn empty_search_result_fields() {
    let mut dom = Dom::new();
    let i = open(&mut dom, "div", &[("class", "ipc-metadata-list-summary-item__c")]);
    dom.close(i);
    let results = search_result(&dom, 5);
    assert_eq!(results.len(), 1);
    assert_eq!(results[0].title, "No title found");
    assert_eq!(results[0].id, "No link found");
    assert_eq!(results[0].time, "No time found");
}
