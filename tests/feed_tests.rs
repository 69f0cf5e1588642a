use mangadex::chapters::{page_files_key, page_list, page_list_url, Chapter, ChapterRecord};
use mangadex::feed::{chapter_feed_url, feed_page_url, ChapterFeed, FeedPager};
use mangadex::records::Relationship;

fn chapter_record(id: Option<&str>) -> ChapterRecord {
    ChapterRecord {
        id: id.map(|s| s.to_string()),
        title: Some("t".to_string()),
        volume: None,
        chapter: Some("1".to_string()),
        publish_at: None,
        lang: Some("en".to_string()),
        relationships: vec![Relationship {
            kind: "scanlation_group".to_string(),
            id: "g".to_string(),
            name: Some("Group".to_string()),
        }],
    }
}

#[test]
fn pagination_over_1200_records_takes_three_fetches() {
    let total: usize = 1200;
    let mut feed = ChapterFeed::new();
    let mut offsets: Vec<u64> = Vec::new();
    while let Some(offset) = feed.pager.next_offset() {
        assert!(!offsets.contains(&offset));
        offsets.push(offset);
        let start = offset as usize;
        let end = usize::min(start + 500, total);
        let page: Vec<ChapterRecord> =
            (start..end).map(|i| chapter_record(Some(&format!("c{}", i)))).collect();
        feed.add_page(total as i64, &page);
    }
    assert_eq!(offsets, vec![0, 500, 1000]);
    assert_eq!(feed.chapters.len(), 1200);
    assert_eq!(feed.chapters[0].id, "c0");
    assert_eq!(feed.chapters[1199].id, "c1199");
}

#[test]
fn pagination_stops_after_first_page_when_it_holds_all() {
    let mut pager = FeedPager::new();
    assert_eq!(pager.next_offset(), Some(0));
    pager.page_fetched(500);
    assert_eq!(pager.next_offset(), None);
    let mut empty = FeedPager::new();
    empty.page_fetched(-3);
    assert_eq!(empty.next_offset(), None);
}

#[test]
fn malformed_chapter_is_dropped() {
    let mut feed = ChapterFeed::new();
    let page = vec![chapter_record(Some("a")), chapter_record(None), chapter_record(Some("b"))];
    feed.add_page(3, &page);
    let ids: Vec<&str> = feed.chapters.iter().map(|c: &Chapter| c.id.as_str()).collect();
    assert_eq!(ids, vec!["a", "b"]);
    assert_eq!(feed.chapters[0].scanlator, "Group");
    assert_eq!(feed.chapters[0].date_updated, -1);
    assert_eq!(feed.chapters[0].url, "https://mangadex.org/chapter/a");
}

#[test]
fn chapter_feed_url_lists_languages_and_blocked_ids() {
    let langs = vec!["en".to_string()];
    let url = chapter_feed_url("m1", &langs, &Some(" g1, ,g2 ".to_string()), &Some("".to_string()));
    assert_eq!(
        url,
        "https://api.mangadex.org/manga/m1/feed?order[volume]=desc&order[chapter]=desc&limit=500\
         &contentRating[]=pornographic&contentRating[]=erotica&contentRating[]=suggestive\
         &contentRating[]=safe&includes[]=scanlation_group&translatedLanguage[]=en\
         &excludedGroups[]=g1&excludedGroups[]=g2"
    );
    let first = feed_page_url(&url, 0);
    assert_eq!(first, url);
    assert_eq!(feed_page_url(&url, 1000), format!("{}&offset=1000", url));
}

#[test]
fn pages_are_indexed_without_gaps() {
    assert_eq!(page_list_url("c1", true), "https://api.mangadex.org/at-home/server/c1?forcePort443=true");
    assert_eq!(page_list_url("c1", false), "https://api.mangadex.org/at-home/server/c1");
    assert_eq!(page_files_key(true), "dataSaver");
    assert_eq!(page_files_key(false), "data");
    let files = vec!["a.png".to_string(), "b.png".to_string()];
    let pages = page_list("https://s.example", "h", &files, true);
    assert_eq!(pages.len(), 2);
    assert_eq!(pages[0].index, 0);
    assert_eq!(pages[1].index, 1);
    assert_eq!(pages[1].url, "https://s.example/data-saver/h/b.png");
    let pages = page_list("https://s.example", "h", &files, false);
    assert_eq!(pages[0].url, "https://s.example/data/h/a.png");
}
