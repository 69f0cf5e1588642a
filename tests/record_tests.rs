use mangadex::chapters::ChapterRecord;
use mangadex::link::{chapter_link, classify_link, entry_link, owning_entry, LinkError, LinkTarget};
use mangadex::listing::{
    collect_manga_ids, is_latest_listing, latest_chapters_url, listing_filters, manga_batch_url, manga_details_url,
    manga_page,
};
use mangadex::query::FilterType;
use mangadex::rate::RateBudget;
use mangadex::records::{
    parse_manga, parse_manga_records, LocalizedText, MangaContentRating, MangaRecord, MangaStatus, Relationship,
};

fn rel(kind: &str, id: &str, name: Option<&str>) -> Relationship {
    Relationship { kind: kind.to_string(), id: id.to_string(), name: name.map(|s| s.to_string()) }
}

fn text(lang: &str, t: &str) -> LocalizedText {
    LocalizedText { lang: lang.to_string(), text: t.to_string() }
}

fn manga_record(id: Option<&str>) -> MangaRecord {
    MangaRecord {
        id: id.map(|s| s.to_string()),
        titles: vec![text("ja", "Komi-san"), text("en", "Komi Can't Communicate")],
        descriptions: vec![text("fr", "Une histoire")],
        status: Some("ONGOING".to_string()),
        content_rating: Some("suggestive".to_string()),
        tags: vec!["Comedy".to_string(), "Romance".to_string(), "Comedy".to_string()],
        relationships: vec![
            rel("author", "a1", Some("Oda Tomohito")),
            rel("author", "a2", Some("Someone Else")),
            rel("cover_art", "c1", Some("cover.jpg")),
        ],
    }
}

fn chapter_record(id: &str, rels: Vec<Relationship>) -> ChapterRecord {
    ChapterRecord {
        id: Some(id.to_string()),
        title: None,
        volume: Some("2".to_string()),
        chapter: Some("10.5".to_string()),
        publish_at: Some(1_700_000_000),
        lang: Some("en".to_string()),
        relationships: rels,
    }
}

#[test]
fn entry_fields_are_mapped() {
    let m = parse_manga(&manga_record(Some("m1")), &None).unwrap();
    assert_eq!(m.id, "m1");
    assert_eq!(m.title, "Komi Can't Communicate");
    assert_eq!(m.description, "Une histoire");
    assert_eq!(m.author, "Oda Tomohito");
    assert_eq!(m.artist, "");
    assert_eq!(m.cover, "https://uploads.mangadex.org/covers/m1/cover.jpg");
    assert_eq!(m.url, "https://mangadex.org/title/m1");
    assert_eq!(m.categories, vec!["Comedy".to_string(), "Romance".to_string()]);
    assert_eq!(m.status, MangaStatus::Ongoing);
    assert_eq!(m.nsfw, MangaContentRating::Suggestive);
    let ja = parse_manga(&manga_record(Some("m1")), &Some("ja".to_string())).unwrap();
    assert_eq!(ja.title, "Komi-san");
}

#[test]
fn status_strings_map_case_insensitively() {
    let mut r = manga_record(Some("m"));
    r.status = Some("Hiatus".to_string());
    assert_eq!(parse_manga(&r, &None).unwrap().status, MangaStatus::Hiatus);
    r.status = Some("cancelled".to_string());
    assert_eq!(parse_manga(&r, &None).unwrap().status, MangaStatus::Cancelled);
    r.status = Some("finished".to_string());
    assert_eq!(parse_manga(&r, &None).unwrap().status, MangaStatus::Unknown);
    r.status = None;
    r.content_rating = Some("pornographic".to_string());
    assert_eq!(parse_manga(&r, &None).unwrap().nsfw, MangaContentRating::Nsfw);
}

#[test]
fn one_malformed_record_costs_one_entry() {
    let mut recs: Vec<MangaRecord> = (0..20).map(|i| manga_record(Some(&format!("m{}", i)))).collect();
    recs[7] = manga_record(None);
    let out = parse_manga_records(&recs, &None);
    assert_eq!(out.len(), 19);
    let mut untitled = manga_record(Some("x"));
    untitled.titles = vec![];
    assert!(parse_manga(&untitled, &None).is_err());
}

#[test]
fn listing_page_reports_more() {
    let recs = vec![manga_record(Some("a")), manga_record(Some("b"))];
    let page = manga_page(&recs, &None, 2, 41);
    assert_eq!(page.manga.len(), 2);
    assert!(page.has_more);
    assert!(!manga_page(&recs, &None, 2, 40).has_more);
    assert!(manga_page(&recs, &None, 1, 21).has_more);
    assert!(!manga_page(&recs, &None, 1, 20).has_more);
}

#[test]
fn latest_listing_joins_distinct_entries() {
    let chapters = vec![
        chapter_record("c1", vec![rel("manga", "m1", None), rel("scanlation_group", "g", None)]),
        chapter_record("c2", vec![rel("manga", "m2", None)]),
        chapter_record("c3", vec![rel("user", "u", None), rel("manga", "m1", None)]),
    ];
    let ids = collect_manga_ids(&chapters);
    assert_eq!(ids, vec!["m1".to_string(), "m2".to_string()]);
    assert_eq!(
        manga_batch_url(&ids),
        "https://api.mangadex.org/manga?includes[]=cover_art&order[updatedAt]=desc&contentRating[]=erotica\
         &contentRating[]=suggestive&contentRating[]=safe&ids[]=m1&ids[]=m2"
    );
    assert_eq!(
        latest_chapters_url(2, &vec!["en".to_string()]),
        "https://api.mangadex.org/chapter?includes[]=manga&order[publishAt]=desc&includeFutureUpdates=0\
         &limit=20&offset=20&translatedLanguage[]=en"
    );
}

#[test]
fn named_listings() {
    let popular = listing_filters(&"Popular".to_string());
    assert_eq!(popular.len(), 1);
    assert_eq!(popular[0].kind, FilterType::Sort);
    assert!(listing_filters(&"Other".to_string()).is_empty());
    assert!(is_latest_listing(&"Latest".to_string()));
    assert!(!is_latest_listing(&"Popular".to_string()));
}

#[test]
fn entry_link_resolves_to_entry_only() {
    let url = "https://mangadex.org/title/a96676e5-8ae2-425e-b549-7f15dd34a6d8/komi-san-wa-komyushou-desu";
    let id = match classify_link(url) {
        LinkTarget::Manga(id) => id,
        other => panic!("unexpected {:?}", other),
    };
    assert_eq!(id, "a96676e5-8ae2-425e-b549-7f15dd34a6d8");
    assert_eq!(
        manga_details_url(&id),
        "https://api.mangadex.org/manga/a96676e5-8ae2-425e-b549-7f15dd34a6d8?includes[]=cover_art&includes[]=author&includes[]=artist"
    );
    let link = entry_link(&manga_record(Some(&id)), &None).unwrap();
    assert_eq!(link.manga.unwrap().id, id);
    assert!(link.chapter.is_none());
}

#[test]
fn chapter_link_resolves_to_both() {
    let url = "https://mangadex.org/chapter/56eecc6f-1a4e-464c-b6a4-a1cbdfdfd726/1";
    let id = match classify_link(url) {
        LinkTarget::Chapter(id) => id,
        other => panic!("unexpected {:?}", other),
    };
    assert_eq!(id, "56eecc6f-1a4e-464c-b6a4-a1cbdfdfd726");
    let chapter = chapter_record(&id, vec![rel("scanlation_group", "g", None), rel("manga", "owner", None)]);
    let owner = owning_entry(&chapter).unwrap();
    assert_eq!(owner, "owner");
    let link = chapter_link(&chapter, &manga_record(Some(&owner)), &None).unwrap();
    assert_eq!(link.manga.unwrap().id, "owner");
    assert_eq!(link.chapter.unwrap().id, id);
    let orphan = chapter_record("c", vec![rel("user", "u", None)]);
    assert_eq!(owning_entry(&orphan), Err(LinkError::Unsupported));
}

#[test]
fn other_links_are_unsupported() {
    assert!(matches!(classify_link("https://example.com/title/abc"), LinkTarget::Unsupported));
    assert!(matches!(classify_link("https://mangadex.org/group/abc"), LinkTarget::Unsupported));
    assert!(matches!(classify_link("https://mangadex.org/title/"), LinkTarget::Unsupported));
    assert!(matches!(classify_link(""), LinkTarget::Unsupported));
    assert!(matches!(classify_link("https://mangadex.org/chapter/xyz"), LinkTarget::Chapter(ref s) if s == "xyz"));
}

#[test]
fn budget_holds_back_the_extra_request() {
    let mut budget = RateBudget::new(3, 1000);
    assert!(budget.try_acquire(5000));
    assert!(budget.try_acquire(5100));
    assert!(budget.try_acquire(5500));
    assert!(!budget.try_acquire(5999));
    assert_eq!(budget.wait_time(5999), 1);
    assert_eq!(budget.wait_time(6000), 0);
    assert!(budget.try_acquire(6000));
}
