use mangadex::hentai2read::{
    between_string, change_page, clean_cover_url, create_advanced_search_body, genre_id_from_filter, get_manga_id,
    image_pages, mangakatana_list_url,
};
use mangadex::mangastream::{
    append_protocol, get_id_from_url, get_lang_code, get_listing_url, get_permanet_url, get_search_url, image_src,
    img_url_encode, manga_status, urlencode,
};
use mangadex::records::MangaStatus;

const LISTING: [&str; 3] = ["Latest", "Popular", "New"];
const STATUS: [&str; 5] = ["Ongoing", "Completed", "Hiatus", "Dropped", "Cancelled"];
const STATUS_2: [&str; 5] = ["En curso", "Finalizado", "Pausado", "Abandonado", "Cancelado"];

#[test]
fn listing_urls() {
    let base = "https://site.example".to_string();
    let path = "manga".to_string();
    assert_eq!(
        get_listing_url(LISTING, base.clone(), path.clone(), "Popular".to_string(), 1),
        "https://site.example/manga/?order=popular"
    );
    assert_eq!(
        get_listing_url(LISTING, base.clone(), path.clone(), "New".to_string(), 3),
        "https://site.example/manga/?page=3&order=latest"
    );
    assert_eq!(get_listing_url(LISTING, base, path, "Other".to_string(), 1), "https://site.example/manga/?");
}

#[test]
fn search_urls() {
    let tags = |v: &[&str]| v.iter().map(|s| s.to_string()).collect::<Vec<String>>();
    assert_eq!(
        get_search_url("https://s.example", "manga", LISTING, String::new(), 2, vec![], tags(&["x"]), String::new(), String::new()),
        "https://s.example/manga/?page=2&order=update"
    );
    assert_eq!(
        get_search_url("https://s.example", "manga", LISTING, "one piece".to_string(), 2, vec![], vec![], String::new(), String::new()),
        "https://s.example/manga/page/2?s=one+piece"
    );
    assert_eq!(
        get_search_url(
            "https://s.example",
            "manga",
            LISTING,
            String::new(),
            1,
            tags(&["action"]),
            tags(&["gore"]),
            "ongoing".to_string(),
            "manhwa".to_string()
        ),
        "https://s.example/manga/?page=1&genre%5B%5D=action&genre%5B%5D=-gore&status=ongoing&type=manhwa"
    );
}

#[test]
fn status_words() {
    assert_eq!(manga_status("Status: Ongoing".to_string(), STATUS, STATUS_2), MangaStatus::Ongoing);
    assert_eq!(manga_status("Finalizado".to_string(), STATUS, STATUS_2), MangaStatus::Completed);
    assert_eq!(manga_status("Hiatus".to_string(), STATUS, STATUS_2), MangaStatus::Hiatus);
    assert_eq!(manga_status("Dropped".to_string(), STATUS, STATUS_2), MangaStatus::Cancelled);
    assert_eq!(manga_status("Cancelado".to_string(), STATUS, STATUS_2), MangaStatus::Cancelled);
    assert_eq!(manga_status("?".to_string(), STATUS, STATUS_2), MangaStatus::Unknown);
}

#[test]
fn encoders() {
    assert_eq!(img_url_encode("a b_c-1.jpg".to_string()), "a%20b_c-1.jpg");
    assert_eq!(img_url_encode("é".to_string()), "%C3%A9");
    assert_eq!(urlencode("https://a.b/c d?x=1".as_bytes()), "https://a.b/c%20d?x=1");
    assert_eq!(urlencode("[]".as_bytes()), "%5B%5D");
}

#[test]
fn protocols_and_ids() {
    assert_eq!(append_protocol("//cdn.example/a.jpg".to_string()), "https://cdn.example/a.jpg");
    assert_eq!(append_protocol("http://x".to_string()), "http://x");
    assert_eq!(get_id_from_url("https://flamescans.org/series/the-world-after-the-fall/".to_string()), "the-world-after-the-fall");
    assert_eq!(get_id_from_url("plain".to_string()), "plain");
    assert_eq!(get_lang_code(&vec!["es".to_string(), "en".to_string()]), "es");
    assert_eq!(get_lang_code(&vec![]), "");
}

#[test]
fn permanent_urls() {
    assert_eq!(
        get_permanet_url("https://luminousscans.com/series/1671729411-a-bad-person/".to_string()),
        "https://luminousscans.com/series/a-bad-person"
    );
    assert_eq!(
        get_permanet_url("https://luminousscans.com/series/9999999999-a-bad-person/".to_string()),
        "https://luminousscans.com/series/9999999999-a-bad-person"
    );
    assert_eq!(get_permanet_url("https://x.example/series/abc-def".to_string()), "https://x.example/series/abc-def");
}

#[test]
fn image_sources() {
    assert_eq!(
        image_src("data:image/png;base64,xx".to_string(), "//cdn.example/i/a b.jpg?resize=165,225".to_string(), String::new()),
        "https://cdn.example/i/a%20b.jpg"
    );
    assert_eq!(image_src("https://c.example/x.png".to_string(), String::new(), String::new()), "https://c.example/x.png");
    assert_eq!(image_src(String::new(), String::new(), String::new()), "https:");
}

#[test]
fn search_body() {
    let body = create_advanced_search_body("Komi", "", Some(1), Some("and".to_string()), Some(vec![3, 4]), None);
    assert_eq!(
        body,
        "cmd_wpm_wgt_mng_sch_sbm=Search&txt_wpm_wgt_mng_sch_nme=&cmd_wpm_pag_mng_sch_sbm=&txt_wpm_pag_mng_sch_nme=Komi\
         &txt_wpm_pag_mng_sch_ats=&rad_wpm_pag_mng_sch_sts=1&rad_wpm_pag_mng_sch_tag_mde=and\
         &chk_wpm_pag_mng_sch_mng_tag_inc[]=3&chk_wpm_pag_mng_sch_mng_tag_inc[]=4"
    );
    let bare = create_advanced_search_body("", "", None, None, None, Some(vec![-2]));
    assert!(bare.ends_with("&rad_wpm_pag_mng_sch_sts=0&rad_wpm_pag_mng_sch_tag_mde=&chk_wpm_pag_mng_sch_mng_tag_exc[]=-2"));
}

#[test]
fn genre_ids() {
    assert_eq!(genre_id_from_filter("genre_tag_42"), 42);
    assert_eq!(genre_id_from_filter("genre_-7"), -7);
    assert_eq!(genre_id_from_filter("genre_x"), 0);
    assert_eq!(genre_id_from_filter("9223372036854775807"), i64::MAX);
    assert_eq!(genre_id_from_filter("a_-9223372036854775808"), i64::MIN);
    assert_eq!(genre_id_from_filter("a_9223372036854775808"), 0);
    assert_eq!(genre_id_from_filter(""), 0);
}

#[test]
fn address_pieces() {
    assert_eq!(
        clean_cover_url("/cdn-cgi/image/format=auto/https://img1.hentaicdn.com/hentai/cover/_S38878.jpg?x63162"),
        "https://img1.hentaicdn.com/hentai/cover/_S38878.jpg?x63162"
    );
    assert_eq!(clean_cover_url("no-protocol"), "no-protocol");
    assert_eq!(get_manga_id("https://hentai2read.com/some_title/"), "some_title");
    assert_eq!(get_manga_id("nothing"), "");
    assert_eq!(change_page("https://hentai2read.com/hentai-list/all/any/all/last-added/2/", 3), "https://hentai2read.com/hentai-list/all/any/all/last-added/23");
    assert_eq!(change_page("abc", 5), "abc5");
    assert_eq!(between_string("var x = 'images' : [\"a.jpg\",\"b.jpg\"]", "'images' : [", "\"]"), Some("\"a.jpg\",\"b.jpg".to_string()));
    assert_eq!(between_string("abc", "x", "c"), None);
    assert_eq!(between_string("end then start", "start", "end"), None);
}

#[test]
fn simple_pages_and_listing() {
    let pages = image_pages(&vec!["1/a.jpg".to_string(), "1/b.jpg".to_string()]);
    assert_eq!(pages.len(), 2);
    assert_eq!(pages[1].index, 1);
    assert_eq!(pages[1].url, "https://static.hentaicdn.com/hentai/1/b.jpg");
    assert_eq!(mangakatana_list_url(4), "https://mangakatana.com/manga/page/4");
}
