//! Helpers of the adapter for a site searched through a form: the search form
//! body and the pieces read out of its addresses.
use vstd::prelude::*;
use vstd::string::StringExecFns;
use crate::text::{decimal, push_signed};
use crate::strings::{chars_of, string_of, find, rfind_char, occurs, is_first_occurrence, int_text, parse_i64};
use crate::mangastream::{last_segment, lemma_last_segment_of};
use crate::chapters::Page;

verus! {

/// One `key` + decimal number for each of `values`, in order.
pub open spec fn number_params(key: Seq<char>, values: Seq<i64>) -> Seq<char>
    decreases values.len(),
{
    if values.len() == 0 {
        Seq::empty()
    } else {
        number_params(key, values.drop_last()) + key + decimal(values.last() as int)
    }
}

fn push_numbers(out: &mut String, key: &str, values: &Option<Vec<i64>>)
    ensures
        final(out)@ == old(out)@ + match values {
            Some(v) => number_params(key@, v@),
            None => Seq::empty(),
        },
{
    if let Some(v) = values {
        let mut i: usize = 0;
        while i < v.len()
            invariant
                0 <= i <= v@.len(),
                out@ == old(out)@ + number_params(key@, v@.subrange(0, i as int)),
            decreases v@.len() - i,
        {
            out.append(key);
            push_signed(out, v[i]);
            assert(v@.subrange(0, i + 1).drop_last() =~= v@.subrange(0, i as int));
            i = i + 1;
            assert(out@ =~= old(out)@ + number_params(key@, v@.subrange(0, i as int)));
        }
        assert(v@.subrange(0, i as int) =~= v@);
    } else {
        assert(out@ =~= old(out)@ + Seq::<char>::empty());
    }
}

/// The body of the advanced search form. `manga_title` and `artist_name`
/// come already URI-encoded; a missing status counts as `0`.
pub fn create_advanced_search_body(
    manga_title: &str,
    artist_name: &str,
    status: Option<i64>,
    tag_search_mode: Option<String>,
    include_tags: Option<Vec<i64>>,
    exclude_tags: Option<Vec<i64>>,
) -> (r: String)
    ensures
        r@ == "cmd_wpm_wgt_mng_sch_sbm=Search&txt_wpm_wgt_mng_sch_nme=&cmd_wpm_pag_mng_sch_sbm=&txt_wpm_pag_mng_sch_nme="@
            + manga_title@ + "&txt_wpm_pag_mng_sch_ats="@ + artist_name@ + "&rad_wpm_pag_mng_sch_sts="@
            + decimal(match status {
                Some(s) => s as int,
                None => 0,
            }) + "&rad_wpm_pag_mng_sch_tag_mde="@ + match tag_search_mode {
                Some(m) => m@,
                None => Seq::empty(),
            } + match include_tags {
                Some(v) => number_params("&chk_wpm_pag_mng_sch_mng_tag_inc[]="@, v@),
                None => Seq::empty(),
            } + match exclude_tags {
                Some(v) => number_params("&chk_wpm_pag_mng_sch_mng_tag_exc[]="@, v@),
                None => Seq::empty(),
            },
{
    let mut body = "cmd_wpm_wgt_mng_sch_sbm=Search&txt_wpm_wgt_mng_sch_nme=&cmd_wpm_pag_mng_sch_sbm=&txt_wpm_pag_mng_sch_nme=".to_owned();
    body.append(manga_title);
    body.append("&txt_wpm_pag_mng_sch_ats=");
    body.append(artist_name);
    body.append("&rad_wpm_pag_mng_sch_sts=");
    let st: i64 = match status {
        Some(s) => s,
        None => 0,
    };
    push_signed(&mut body, st);
    body.append("&rad_wpm_pag_mng_sch_tag_mde=");
    if let Some(m) = &tag_search_mode {
        body.append(m.as_str());
    }
    push_numbers(&mut body, "&chk_wpm_pag_mng_sch_mng_tag_inc[]=", &include_tags);
    push_numbers(&mut body, "&chk_wpm_pag_mng_sch_mng_tag_exc[]=", &exclude_tags);
    body
}

/// The number after the last `_` of a genre's filter name; `0` when it is
/// not a number that fits.
pub fn genre_id_from_filter(str: &str) -> (r: i64)
    ensures
        ({
            let t = int_text(last_segment(str@, '_'));
            r == if t is Some && i64::MIN <= t->Some_0 <= i64::MAX {
                t->Some_0
            } else {
                0
            }
        }),
{
    let v = chars_of(str);
    let seg = crate::mangastream::text_after_last(&v, '_');
    let c = chars_of(seg.as_str());
    match parse_i64(&c) {
        Some(n) => n,
        None => 0,
    }
}

/// `s` from the first `https://` on; all of `s` when it holds none.
pub open spec fn from_https(s: Seq<char>) -> Seq<char> {
    if occurs(s, "https://"@) {
        s.subrange(choose|i: int| is_first_occurrence(s, "https://"@, i), s.len() as int)
    } else {
        s
    }
}

/// A cover address without the image proxy in front of it.
pub fn clean_cover_url(str: &str) -> (r: String)
    ensures
        r@ == from_https(str@),
{
    let v = chars_of(str);
    let p = chars_of("https://");
    match find(&v, &p) {
        Some(i) => {
            let ghost c = choose|k: int| is_first_occurrence(v@, p@, k);
            assert(c == i as int) by {
                if c > i {
                    assert(crate::strings::occurs_at(v@, p@, i as int));
                }
            }
            string_of(&v, i, v.len())
        },
        None => {
            assert(v@.subrange(0, v@.len() as int) =~= v@);
            string_of(&v, 0, v.len())
        },
    }
}

/// The last-but-one `/`-separated segment of `s`; empty when `s` has no `/`.
pub open spec fn penultimate_segment(s: Seq<char>) -> Seq<char> {
    if s.contains('/') {
        last_segment(s.subrange(0, s.len() - last_segment(s, '/').len() - 1), '/')
    } else {
        Seq::empty()
    }
}

fn penultimate(v: &Vec<char>) -> (r: Vec<char>)
    ensures
        r@ == penultimate_segment(v@),
{
    match rfind_char(v, '/') {
        Some(k) => {
            proof {
                lemma_last_segment_of(v@, '/', k as int);
            }
            let head = string_of(v, 0, k);
            let seg = crate::mangastream::text_after_last(&chars_of(head.as_str()), '/');
            chars_of(seg.as_str())
        },
        None => Vec::new(),
    }
}

/// The entry identifier in an address: its last-but-one segment.
pub fn get_manga_id(str: &str) -> (r: String)
    ensures
        r@ == penultimate_segment(str@),
{
    let v = chars_of(str);
    let p = penultimate(&v);
    string_of(&p, 0, p.len())
}

/// `str` with as many characters at its end as its last-but-one segment has
/// replaced by the decimal `page`.
pub fn change_page(str: &str, page: i32) -> (r: String)
    ensures
        r@ == str@.subrange(0, str@.len() - penultimate_segment(str@).len()) + decimal(page as int),
{
    let v = chars_of(str);
    let p = penultimate(&v);
    proof {
        lemma_penultimate_len(v@);
    }
    let mut url = string_of(&v, 0, v.len() - p.len());
    push_signed(&mut url, page as i64);
    url
}

proof fn lemma_penultimate_len(s: Seq<char>)
    ensures
        penultimate_segment(s).len() <= s.len(),
{
    if s.contains('/') {
        crate::mangastream::lemma_last_segment_len(s, '/');
        let h = s.subrange(0, s.len() - last_segment(s, '/').len() - 1);
        crate::mangastream::lemma_last_segment_len(h, '/');
    }
}

/// The text of `s` between the first `start` and the first `end`; `None` when
/// either is missing, or `end` first stands before the end of `start`.
pub fn between_string(s: &str, start: &str, end: &str) -> (r: Option<String>)
    ensures
        match r {
            Some(t) => exists|a: int, b: int|
                is_first_occurrence(s@, start@, a) && is_first_occurrence(s@, end@, b)
                    && a + start@.len() <= b && t@ == s@.subrange(a + start@.len(), b),
            None => !occurs(s@, start@) || !occurs(s@, end@) || exists|a: int, b: int|
                is_first_occurrence(s@, start@, a) && is_first_occurrence(s@, end@, b) && b < a + start@.len(),
        },
{
    let v = chars_of(s);
    let st = chars_of(start);
    let en = chars_of(end);
    let a = match find(&v, &st) {
        Some(a) => a,
        None => return None,
    };
    let b = match find(&v, &en) {
        Some(b) => b,
        None => return None,
    };
    let n = v.len();
    assert(a + st@.len() <= n);
    let from = a + st.len();
    if b < from {
        return None;
    }
    Some(string_of(&v, from, b))
}

/// The pages of a chapter from the image paths its reader script lists.
pub fn image_pages(paths: &Vec<String>) -> (r: Vec<Page>)
    requires
        paths@.len() <= i32::MAX,
    ensures
        r@.len() == paths@.len(),
        forall|i: int|
            0 <= i < r@.len() ==> #[trigger] r@[i].index == i && r@[i].url@
                == "https://static.hentaicdn.com/hentai/"@ + paths@[i]@,
{
    let mut pages: Vec<Page> = Vec::new();
    let mut i: usize = 0;
    while i < paths.len()
        invariant
            paths@.len() <= i32::MAX,
            0 <= i <= paths@.len(),
            pages@.len() == i,
            forall|k: int|
                0 <= k < i ==> #[trigger] pages@[k].index == k && pages@[k].url@
                    == "https://static.hentaicdn.com/hentai/"@ + paths@[k]@,
        decreases paths@.len() - i,
    {
        let mut url = "https://static.hentaicdn.com/hentai/".to_owned();
        url.append(paths[i].as_str());
        let ghost before = pages@;
        pages.push(Page { index: i as i32, url });
        assert(pages@[i as int].index == i as int);
        assert(forall|k: int| 0 <= k < i ==> pages@[k] == before[k]);
        i = i + 1;
    }
    pages
}

/// The catalog page `page` of the plain listing site.
pub fn mangakatana_list_url(page: i32) -> (r: String)
    ensures
        r@ == "https://mangakatana.com/manga/page/"@ + decimal(page as int),
{
    let mut url = "https://mangakatana.com/manga/page/".to_owned();
    push_signed(&mut url, page as i64);
    url
}

} // verus!
