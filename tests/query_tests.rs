use mangadex::query::{has_more, manga_list_url, translate_filters, urlencode, Filter, FilterType, FilterValue};
use mangadex::text::{i32_to_string, percent_encode, EscapeStyle};

fn filter(kind: FilterType, name: &str, value: FilterValue, id: Option<&str>) -> Filter {
    Filter { kind, name: name.to_string(), value, id: id.map(|s| s.to_string()) }
}

const BASE: &str = "https://api.mangadex.org/manga/?includes[]=cover_art&limit=20&offset=";

#[test]
fn decimal_text_of_integers() {
    assert_eq!(i32_to_string(0), "0");
    assert_eq!(i32_to_string(7), "7");
    assert_eq!(i32_to_string(1234), "1234");
    assert_eq!(i32_to_string(-56), "-56");
    assert_eq!(i32_to_string(i32::MIN), "-2147483648");
    assert_eq!(i32_to_string(i32::MAX), "2147483647");
}

#[test]
fn urlencode_escapes_every_non_alphanumeric_byte() {
    assert_eq!(urlencode("Komi san"), "Komi%20san");
    assert_eq!(urlencode("a-b_c.d"), "a%2db%5fc%2ed");
    assert_eq!(urlencode("é"), "%c3%a9");
    assert_eq!(urlencode(""), "");
}

#[test]
fn escape_styles_differ_in_what_they_keep() {
    assert_eq!(percent_encode("a b-c.png".as_bytes(), EscapeStyle::ImagePath), "a%20b-c.png");
    assert_eq!(percent_encode("a b/c?d=e".as_bytes(), EscapeStyle::Uri), "a%20b/c?d=e");
    assert_eq!(percent_encode("ä".as_bytes(), EscapeStyle::Uri), "%C3%A4");
}

#[test]
fn unrecognized_filters_leave_the_bare_query() {
    let filters = vec![
        filter(FilterType::Base, "x", FilterValue::Int(1), None),
        filter(FilterType::Group, "g", FilterValue::Null, None),
        filter(FilterType::Select, "Unknown select", FilterValue::Int(1), None),
        filter(FilterType::Check, "Unknown toggle", FilterValue::Int(1), None),
    ];
    let langs = vec!["en".to_string()];
    assert_eq!(manga_list_url(&filters, 1, &langs), format!("{}0", BASE));
    assert_eq!(manga_list_url(&vec![], 3, &langs), format!("{}40", BASE));
}

#[test]
fn text_and_author_filters_are_escaped() {
    let filters = vec![
        filter(FilterType::Title, "Title", FilterValue::Text("one piece".to_string()), None),
        filter(FilterType::Author, "Author", FilterValue::Text("Oda".to_string()), None),
        filter(FilterType::Title, "Title", FilterValue::Int(3), None),
    ];
    assert_eq!(translate_filters(&filters, &vec![]), "&title=one%20piece&author=Oda");
}

#[test]
fn tag_filters_go_to_one_side_only() {
    let filters = vec![
        filter(FilterType::Genre, "Action", FilterValue::Int(1), Some("t1")),
        filter(FilterType::Genre, "Drama", FilterValue::Int(0), Some("t2")),
        filter(FilterType::Genre, "Horror", FilterValue::Int(-1), Some("t3")),
        filter(FilterType::Genre, "NoId", FilterValue::Int(1), None),
    ];
    let q = translate_filters(&filters, &vec![]);
    assert_eq!(q, "&includedTags[]=t1&excludedTags[]=t2");
    assert!(!q.contains("excludedTags[]=t1"));
    assert!(!q.contains("includedTags[]=t2"));
}

#[test]
fn toggles_skip_negative_values_and_exclude_languages() {
    let filters = vec![
        filter(FilterType::Check, "Japanese", FilterValue::Int(-1), Some("&originalLanguage[]=ja")),
        filter(FilterType::Check, "Korean", FilterValue::Int(0), Some("&originalLanguage[]=ko")),
        filter(FilterType::Check, "Chinese", FilterValue::Int(1), Some("&originalLanguage[]=zh")),
        filter(FilterType::Check, "Has available chapters", FilterValue::Int(1), None),
    ];
    let langs = vec!["en".to_string(), "fr".to_string()];
    assert_eq!(
        translate_filters(&filters, &langs),
        "&excludedOriginalLanguage[]=ko&originalLanguage[]=zh&hasAvailableChapters=true\
         &availableTranslatedLanguage[]=en&availableTranslatedLanguage[]=fr"
    );
}

#[test]
fn sort_and_select_filters() {
    let filters = vec![
        filter(FilterType::Sort, "Sort", FilterValue::Sort { index: Some(2), ascending: Some(true) }, None),
        filter(FilterType::Sort, "Sort", FilterValue::Sort { index: None, ascending: None }, None),
        filter(FilterType::Sort, "Sort", FilterValue::Sort { index: Some(0), ascending: None }, None),
        filter(FilterType::Sort, "Sort", FilterValue::Sort { index: None, ascending: Some(false) }, None),
        filter(FilterType::Sort, "Sort", FilterValue::Sort { index: Some(9), ascending: Some(true) }, None),
        filter(FilterType::Sort, "Sort", FilterValue::Int(1), None),
        filter(FilterType::Select, "Included tags mode", FilterValue::Int(1), None),
        filter(FilterType::Select, "Excluded tags mode", FilterValue::Int(7), None),
    ];
    assert_eq!(
        translate_filters(&filters, &vec![]),
        "&order[followedCount]=asc&includedTagsMode=OR&excludedTagsMode=OR"
    );
}

#[test]
fn has_more_boundaries() {
    assert!(has_more(0, 20, 21));
    assert!(!has_more(0, 20, 20));
    assert!(!has_more(40, 20, 50));
    assert!(!has_more(0, 20, 0));
    assert!(!has_more(i64::MAX, 20, i64::MAX));
}

#[test]
fn first_tag_filter_decides_the_side() {
    let filters = vec![
        filter(FilterType::Genre, "Action", FilterValue::Int(-1), Some("t1")),
        filter(FilterType::Genre, "Action", FilterValue::Int(1), Some("t1")),
        filter(FilterType::Genre, "Action", FilterValue::Int(0), Some("t1")),
        filter(FilterType::Genre, "Drama", FilterValue::Int(0), Some("t2")),
        filter(FilterType::Genre, "Drama", FilterValue::Int(1), Some("t2")),
        filter(FilterType::Genre, "Drama", FilterValue::Int(0), Some("t2")),
    ];
    let q = translate_filters(&filters, &vec![]);
    assert_eq!(q, "&includedTags[]=t1&excludedTags[]=t2");
    let url = manga_list_url(&filters, 1, &vec![]);
    assert!(!url.contains("excludedTags[]=t1"));
    assert!(!url.contains("includedTags[]=t2"));
}
