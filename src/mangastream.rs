//! Helpers of the adapters for sites built on the MangaStream theme: listing
//! and search addresses, status words, and image addresses.
use vstd::prelude::*;
use vstd::string::StringExecFns;
use vstd::utf8::encode_utf8;
use crate::text::{percent_encode, percent_encoded, push_signed, decimal, EscapeStyle};
use crate::strings::{chars_of, string_of, find, starts_with, rfind_char, occurs, is_first_occurrence, digits_below, is_digits, digits_value};
use crate::query::{replace, replace_all, is_named, repeated_param, push_repeated};
use crate::records::MangaStatus;

verus! {

/// The order parameter of a named listing.
pub open spec fn list_type(listing: Seq<Seq<char>>, name: Seq<char>) -> Seq<char> {
    if name == listing[0] {
        "order=update"@
    } else if name == listing[1] {
        "order=popular"@
    } else if name == listing[2] {
        "order=latest"@
    } else {
        Seq::empty()
    }
}

/// The address of a listing page.
pub open spec fn listing_url(base: Seq<char>, path: Seq<char>, lt: Seq<char>, page: int) -> Seq<char> {
    if page == 1 {
        base + "/"@ + path + "/?"@ + lt
    } else {
        base + "/"@ + path + "/?page="@ + decimal(page) + "&"@ + lt
    }
}

pub open spec fn names3(listing: [&str; 3]) -> Seq<Seq<char>> {
    seq![listing[0]@, listing[1]@, listing[2]@]
}

/// The address of page `page` of the listing named `listing_name`, ordered
/// by the listing's position among `listing` (updated, popular, latest).
pub fn get_listing_url(listing: [&str; 3], base_url: String, pathname: String, listing_name: String, page: i32) -> (r: String)
    ensures
        r@ == listing_url(base_url@, pathname@, list_type(names3(listing), listing_name@), page as int),
{
    let lt: &str = if is_named(&listing_name, listing[0]) {
        "order=update"
    } else if is_named(&listing_name, listing[1]) {
        "order=popular"
    } else if is_named(&listing_name, listing[2]) {
        "order=latest"
    } else {
        ""
    };
    proof {
        reveal_strlit("");
    }
    let mut url = base_url.clone();
    url.append("/");
    url.append(pathname.as_str());
    if page == 1 {
        url.append("/?");
    } else {
        url.append("/?page=");
        push_signed(&mut url, page as i64);
        url.append("&");
    }
    url.append(lt);
    assert(url@ =~= listing_url(base_url@, pathname@, list_type(names3(listing), listing_name@), page as int));
    url
}

/// Whether `s` contains the text `p`.
pub fn contains_text(s: &str, p: &str) -> (r: bool)
    ensures
        r == occurs(s@, p@),
{
    let a = chars_of(s);
    let b = chars_of(p);
    find(&a, &b).is_some()
}

/// The status named by words found in `s`, in two languages: the first two
/// words of each list mean ongoing and completed, the third hiatus, the last
/// two cancelled.
pub open spec fn status_from_words(s: Seq<char>, o: Seq<Seq<char>>, o2: Seq<Seq<char>>) -> MangaStatus {
    if occurs(s, o[0]) || occurs(s, o2[0]) {
        MangaStatus::Ongoing
    } else if occurs(s, o[1]) || occurs(s, o2[1]) {
        MangaStatus::Completed
    } else if occurs(s, o[2]) || occurs(s, o2[2]) {
        MangaStatus::Hiatus
    } else if occurs(s, o[3]) || occurs(s, o[4]) || occurs(s, o2[3]) || occurs(s, o2[4]) {
        MangaStatus::Cancelled
    } else {
        MangaStatus::Unknown
    }
}

pub open spec fn names5(o: [&str; 5]) -> Seq<Seq<char>> {
    seq![o[0]@, o[1]@, o[2]@, o[3]@, o[4]@]
}

/// The status a status text names, by the words it contains.
pub fn manga_status(status: String, status_options: [&'static str; 5], status_options_2: [&'static str; 5]) -> (r: MangaStatus)
    ensures
        r == status_from_words(status@, names5(status_options), names5(status_options_2)),
{
    let s = status.as_str();
    if contains_text(s, status_options[0]) || contains_text(s, status_options_2[0]) {
        MangaStatus::Ongoing
    } else if contains_text(s, status_options[1]) || contains_text(s, status_options_2[1]) {
        MangaStatus::Completed
    } else if contains_text(s, status_options[2]) || contains_text(s, status_options_2[2]) {
        MangaStatus::Hiatus
    } else if contains_text(s, status_options[3]) || contains_text(s, status_options[4])
        || contains_text(s, status_options_2[3]) || contains_text(s, status_options_2[4]) {
        MangaStatus::Cancelled
    } else {
        MangaStatus::Unknown
    }
}

/// Percent-escapes every byte of `string` but letters, digits, `-`, `.` and
/// `_`, with upper-case hex digits.
pub fn img_url_encode(string: String) -> (r: String)
    ensures
        r@ == percent_encoded(EscapeStyle::ImagePath, encode_utf8(string@)),
{
    percent_encode(string.as_str().as_bytes(), EscapeStyle::ImagePath)
}

/// Percent-escapes every byte of `url` but letters, digits and the URI
/// punctuation `;,/?:@&=+$-_.!~*'()#`, with upper-case hex digits.
pub fn urlencode(url: &[u8]) -> (r: String)
    ensures
        r@ == percent_encoded(EscapeStyle::Uri, url@),
{
    percent_encode(url, EscapeStyle::Uri)
}

pub open spec fn has_http(url: Seq<char>) -> bool {
    url.len() >= 4 && url.subrange(0, 4) == "http"@
}

/// `url` with `https:` in front unless it begins with `http`.
pub fn append_protocol(url: String) -> (r: String)
    ensures
        r@ == (if has_http(url@) {
            url@
        } else {
            "https:"@ + url@
        }),
{
    let u = chars_of(url.as_str());
    let h = chars_of("http");
    proof {
        reveal_strlit("http");
    }
    if starts_with(&u, &h) {
        url
    } else {
        let mut r = "https:".to_owned();
        r.append(url.as_str());
        r
    }
}

/// `s` without one trailing `/`.
pub open spec fn without_trailing_slash(s: Seq<char>) -> Seq<char> {
    if s.len() > 0 && s.last() == '/' {
        s.drop_last()
    } else {
        s
    }
}

/// What follows the last `c` in `s`; all of `s` when it holds none.
pub open spec fn last_segment(s: Seq<char>, c: char) -> Seq<char>
    decreases s.len(),
{
    if s.len() == 0 {
        s
    } else if s.last() == c {
        Seq::empty()
    } else {
        last_segment(s.drop_last(), c).push(s.last())
    }
}

proof fn lemma_last_segment(s: Seq<char>, c: char, k: int)
    requires
        -1 <= k < s.len(),
        k >= 0 ==> s[k] == c,
        forall|j: int| k < j < s.len() ==> s[j] != c,
    ensures
        last_segment(s, c) == s.subrange(k + 1, s.len() as int),
    decreases s.len(),
{
    if s.len() > 0 {
        if k == s.len() - 1 {
            assert(s.subrange(k + 1, s.len() as int) =~= Seq::<char>::empty());
        } else {
            lemma_last_segment(s.drop_last(), c, k);
            assert(s.subrange(k + 1, s.len() as int) =~= s.drop_last().subrange(k + 1, s.len() - 1).push(s.last()));
        }
    } else {
        assert(s.subrange(k + 1, s.len() as int) =~= s);
    }
}

/// The characters of `s` without one trailing `/`.
fn chars_without_trailing_slash(s: &str) -> (r: Vec<char>)
    ensures
        r@ == without_trailing_slash(s@),
{
    let mut v = chars_of(s);
    if v.len() > 0 && v[v.len() - 1] == '/' {
        v.pop();
        assert(v@ =~= s@.drop_last());
    }
    v
}

/// What follows the last `c` is no longer than the text.
pub proof fn lemma_last_segment_len(s: Seq<char>, c: char)
    ensures
        last_segment(s, c).len() <= s.len(),
        s.contains(c) ==> last_segment(s, c).len() < s.len(),
    decreases s.len(),
{
    if s.len() > 0 {
        lemma_last_segment_len(s.drop_last(), c);
        if s.contains(c) && s.last() != c {
            let k = choose|k: int| 0 <= k < s.len() && s[k] == c;
            assert(s.drop_last()[k] == c);
        }
    }
}

/// `last_segment` is the text after position `k`, the last `c`.
pub proof fn lemma_last_segment_of(s: Seq<char>, c: char, k: int)
    requires
        0 <= k < s.len(),
        s[k] == c,
        forall|j: int| k < j < s.len() ==> s[j] != c,
    ensures
        last_segment(s, c) == s.subrange(k + 1, s.len() as int),
        s.contains(c),
        s.subrange(0, s.len() - last_segment(s, c).len() - 1) == s.subrange(0, k),
{
    lemma_last_segment(s, c, k);
}

/// The text of `v` after its last `c`.
pub fn text_after_last(v: &Vec<char>, c: char) -> (r: String)
    ensures
        r@ == last_segment(v@, c),
{
    let n = v.len();
    match rfind_char(v, c) {
        Some(k) => {
            proof {
                lemma_last_segment(v@, c, k as int);
            }
            string_of(v, k + 1, v.len())
        },
        None => {
            proof {
                lemma_last_segment(v@, c, -1);
                assert(forall|j: int| 0 <= j < v@.len() ==> v@[j] != c);
            }
            string_of(v, 0, v.len())
        },
    }
}

/// The identifier in an address: its last path segment, a trailing `/` aside.
pub fn get_id_from_url(url: String) -> (r: String)
    ensures
        r@ == last_segment(without_trailing_slash(url@), '/'),
{
    let v = chars_without_trailing_slash(url.as_str());
    text_after_last(&v, '/')
}

/// `s` up to the first `p`; all of `s` when `p` does not stand in it.
pub open spec fn before_first(s: Seq<char>, p: Seq<char>) -> Seq<char> {
    if occurs(s, p) {
        s.subrange(0, choose|i: int| is_first_occurrence(s, p, i))
    } else {
        s
    }
}

/// Whether `s` reads as a `u32`: an optional `+`, then digits of a value
/// that fits.
pub open spec fn is_u32_text(s: Seq<char>) -> bool {
    let d = if s.len() > 0 && s[0] == '+' {
        s.drop_first()
    } else {
        s
    };
    is_digits(d) && digits_value(d) <= u32::MAX
}

/// The random number some sites put before an address's last segment.
pub open spec fn url_garbage(u: Seq<char>) -> Seq<char> {
    before_first(last_segment(u, '/'), "-"@)
}

/// The address without the ten-digit number that some sites put before its
/// last segment (and without a trailing `/`).
pub open spec fn permanent_url(url: Seq<char>) -> Seq<char> {
    let u = without_trailing_slash(url);
    let g = url_garbage(u);
    if is_u32_text(g) && g.len() == 10 {
        replace_all(u, g + "-"@, Seq::empty())
    } else {
        u
    }
}

fn text_before(v: &Vec<char>, p: &Vec<char>) -> (r: Vec<char>)
    ensures
        r@ == before_first(v@, p@),
{
    match find(v, p) {
        Some(i) => {
            let ghost c = choose|k: int| is_first_occurrence(v@, p@, k);
            assert(c == i as int) by {
                if c < i {
                } else if c > i {
                    assert(crate::strings::occurs_at(v@, p@, i as int));
                }
            }
            let mut r: Vec<char> = Vec::new();
            let mut k: usize = 0;
            while k < i
                invariant
                    i <= v@.len(),
                    0 <= k <= i,
                    r@ == v@.subrange(0, k as int),
                decreases i - k,
            {
                r.push(v[k]);
                k = k + 1;
                assert(r@ =~= v@.subrange(0, k as int));
            }
            r
        },
        None => v.clone(),
    }
}

fn u32_text(v: &Vec<char>) -> (r: bool)
    ensures
        r == is_u32_text(v@),
{
    let from: usize = if v.len() > 0 && v[0] == '+' { 1 } else { 0 };
    assert(v@.subrange(from as int, v@.len() as int) =~= (if v@.len() > 0 && v@[0] == '+' {
        v@.drop_first()
    } else {
        v@
    }));
    digits_below(v, from, 4294967296).is_some()
}

/// The address without the ten-digit number that some sites put before
/// its last segment to defeat scrapers, so that it stays the same over time.
pub fn get_permanet_url(original_url: String) -> (r: String)
    ensures
        r@ == permanent_url(original_url@),
{
    let u = chars_without_trailing_slash(original_url.as_str());
    let seg = text_after_last(&u, '/');
    let seg_chars = chars_of(seg.as_str());
    let dash = chars_of("-");
    let garbage = text_before(&seg_chars, &dash);
    let whole = string_of(&u, 0, u.len());
    assert(u@.subrange(0, u@.len() as int) =~= u@);
    assert(garbage@ == url_garbage(without_trailing_slash(original_url@)));
    if u32_text(&garbage) && garbage.len() == 10 {
        let mut pat = string_of(&garbage, 0, 10);
        assert(garbage@.subrange(0, 10) =~= garbage@);
        pat.append("-");
        proof {
            reveal_strlit("-");
            reveal_strlit("");
            assert(""@ =~= Seq::<char>::empty());
        }
        assert(pat@ == garbage@ + "-"@);
        let r = replace(whole.as_str(), pat.as_str(), "");
        assert(r@ == replace_all(u@, garbage@ + "-"@, Seq::empty()));
        r
    } else {
        whole
    }
}

/// The first preferred language, or empty when there is none.
pub fn get_lang_code(languages: &Vec<String>) -> (r: String)
    ensures
        r@ == (if languages@.len() > 0 {
            languages@[0]@
        } else {
            Seq::empty()
        }),
{
    if languages.len() > 0 {
        languages[0].clone()
    } else {
        String::new()
    }
}

/// The search address: the plain listing when nothing is searched for;
/// else the query (spaces as `+`) or the page, then one `genre` parameter for
/// each included and, with a leading `-`, each excluded tag, then status and type.
pub open spec fn search_url(
    base: Seq<char>,
    path: Seq<char>,
    listing: Seq<Seq<char>>,
    query: Seq<char>,
    page: int,
    inc: Seq<String>,
    exc: Seq<String>,
    status: Seq<char>,
    mtype: Seq<char>,
) -> Seq<char> {
    if query.len() == 0 && inc.len() == 0 && status.len() == 0 && mtype.len() == 0 {
        listing_url(base, path, list_type(listing, listing[0]), page)
    } else {
        base + "/"@ + path + (if query.len() > 0 {
            "/page/"@ + decimal(page) + "?s="@ + replace_all(query, " "@, "+"@)
        } else {
            "/?page="@ + decimal(page)
        }) + repeated_param("&genre%5B%5D="@, inc) + repeated_param("&genre%5B%5D=-"@, exc) + (if status.len() > 0 {
            "&status="@ + status
        } else {
            Seq::empty()
        }) + (if mtype.len() > 0 {
            "&type="@ + mtype
        } else {
            Seq::empty()
        })
    }
}

/// The address of a search, a filtered listing, or the home listing.
pub fn get_search_url(
    base_url: &str,
    traverse_pathname: &str,
    listing: [&str; 3],
    query: String,
    page: i32,
    included_tags: Vec<String>,
    excluded_tags: Vec<String>,
    status: String,
    manga_type: String,
) -> (r: String)
    ensures
        r@ == search_url(
            base_url@,
            traverse_pathname@,
            names3(listing),
            query@,
            page as int,
            included_tags@,
            excluded_tags@,
            status@,
            manga_type@,
        ),
{
    if query.as_str().is_empty() && included_tags.len() == 0 && status.as_str().is_empty()
        && manga_type.as_str().is_empty() {
        return get_listing_url(listing, base_url.to_owned(), traverse_pathname.to_owned(), listing[0].to_owned(), page);
    }
    let mut url = base_url.to_owned();
    url.append("/");
    url.append(traverse_pathname);
    if !query.as_str().is_empty() {
        url.append("/page/");
        push_signed(&mut url, page as i64);
        url.append("?s=");
        proof {
            reveal_strlit(" ");
        }
        let q = replace(query.as_str(), " ", "+");
        url.append(q.as_str());
    } else {
        url.append("/?page=");
        push_signed(&mut url, page as i64);
    }
    push_repeated(&mut url, "&genre%5B%5D=", &included_tags);
    push_repeated(&mut url, "&genre%5B%5D=-", &excluded_tags);
    if !status.as_str().is_empty() {
        url.append("&status=");
        url.append(status.as_str());
    }
    if !manga_type.as_str().is_empty() {
        url.append("&type=");
        url.append(manga_type.as_str());
    }
    assert(url@ =~= search_url(
        base_url@,
        traverse_pathname@,
        names3(listing),
        query@,
        page as int,
        included_tags@,
        excluded_tags@,
        status@,
        manga_type@,
    ));
    url
}

/// An image attribute that holds an address rather than inline `data:`.
pub open spec fn usable_source(s: Seq<char>) -> bool {
    s.len() > 0 && !(s.len() >= 4 && s.subrange(0, 4) == "data"@)
}

/// The first usable of the three image attributes, without the resize suffix.
pub open spec fn chosen_image(src: Seq<char>, lazy: Seq<char>, data_src: Seq<char>) -> Seq<char> {
    if usable_source(src) {
        replace_all(src, "?resize=165,225"@, Seq::empty())
    } else if usable_source(lazy) {
        replace_all(lazy, "?resize=165,225"@, Seq::empty())
    } else if usable_source(data_src) {
        replace_all(data_src, "?resize=165,225"@, Seq::empty())
    } else {
        Seq::empty()
    }
}

/// An image address with its file name escaped and a protocol in front.
pub open spec fn encoded_image_url(image: Seq<char>) -> Seq<char> {
    let file = last_segment(image, '/');
    let u = image.subrange(0, image.len() - file.len()) + percent_encoded(
        EscapeStyle::ImagePath,
        encode_utf8(file),
    );
    if has_http(u) {
        u
    } else {
        "https:"@ + u
    }
}

fn usable(s: &String) -> (r: bool)
    ensures
        r == usable_source(s@),
{
    let v = chars_of(s.as_str());
    let d = chars_of("data");
    proof {
        reveal_strlit("data");
    }
    v.len() > 0 && !starts_with(&v, &d)
}

/// The address of an image from its `src`, `data-lazy-src` and `data-src`
/// attributes: the first that is set and not inline, its file name escaped.
pub fn image_src(src: String, data_lazy_src: String, data_src: String) -> (r: String)
    ensures
        r@ == encoded_image_url(chosen_image(src@, data_lazy_src@, data_src@)),
{
    proof {
        reveal_strlit("?resize=165,225");
        reveal_strlit("");
        assert(""@ =~= Seq::<char>::empty());
    }
    let image = if usable(&src) {
        replace(src.as_str(), "?resize=165,225", "")
    } else if usable(&data_lazy_src) {
        replace(data_lazy_src.as_str(), "?resize=165,225", "")
    } else if usable(&data_src) {
        replace(data_src.as_str(), "?resize=165,225", "")
    } else {
        String::new()
    };
    let v = chars_of(image.as_str());
    let n = v.len();
    let cut: usize = match rfind_char(&v, '/') {
        Some(k) => {
            proof {
                lemma_last_segment(v@, '/', k as int);
            }
            k + 1
        },
        None => {
            proof {
                lemma_last_segment(v@, '/', -1);
                assert(forall|j: int| 0 <= j < v@.len() ==> v@[j] != '/');
            }
            0
        },
    };
    let mut head = string_of(&v, 0, cut);
    let file = string_of(&v, cut, n);
    let last_encoded = img_url_encode(file);
    head.append(last_encoded.as_str());
    append_protocol(head)
}

} // verus!
