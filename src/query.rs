//! Translation of the host's typed filters into the catalog API's query string.
use vstd::prelude::*;
use vstd::string::StringExecFns;
use vstd::utf8::encode_utf8;
use crate::records::{contains_str, views};
use crate::text::{percent_encode, percent_encoded, push_signed, decimal, EscapeStyle};

verus! {

/// The kinds of filter a host can hand over.
#[derive(Clone, Copy, Debug, PartialEq, Eq, Structural)]
pub enum FilterType {
    Base,
    Group,
    Title,
    Author,
    Select,
    Sort,
    Check,
    Genre,
}

/// The value a filter carries.
#[derive(Debug)]
pub enum FilterValue {
    Null,
    Int(i64),
    Bool(bool),
    Text(String),
    /// A sort selection; either part may be absent.
    Sort { index: Option<i64>, ascending: Option<bool> },
}

/// One filter predicate: its kind, its display name, its value and, for tags
/// and preset toggles, the identifier attached to it.
#[derive(Debug)]
pub struct Filter {
    pub kind: FilterType,
    pub name: String,
    pub value: FilterValue,
    pub id: Option<String>,
}

/// Number of records the catalog listing asks for per page.
pub const LIST_PAGE_SIZE: i64 = 20;

/// The integer a value reads as, `-1` when it is not an integer.
pub open spec fn int_of(v: FilterValue) -> int {
    match v {
        FilterValue::Int(i) => i as int,
        _ => -1,
    }
}

/// `s` with every match of `from`, taken left to right without overlap,
/// replaced by `to`.
pub open spec fn replace_all(s: Seq<char>, from: Seq<char>, to: Seq<char>) -> Seq<char>
    decreases s.len(),
{
    if from.len() == 0 || s.len() < from.len() {
        s
    } else if s.subrange(0, from.len() as int) == from {
        to + replace_all(s.subrange(from.len() as int, s.len() as int), from, to)
    } else {
        seq![s[0]] + replace_all(s.drop_first(), from, to)
    }
}

/// One `key` + value pair for each string of `values`, in order.
pub open spec fn repeated_param(key: Seq<char>, values: Seq<String>) -> Seq<char>
    decreases values.len(),
{
    if values.len() == 0 {
        Seq::empty()
    } else {
        repeated_param(key, values.drop_last()) + key + values.last()@
    }
}

/// The ordering key for a sort index, for indices `0..=5`.
pub open spec fn sort_key(i: int) -> Seq<char> {
    if i == 0 {
        "latestUploadedChapter"@
    } else if i == 1 {
        "relevance"@
    } else if i == 2 {
        "followedCount"@
    } else if i == 3 {
        "createdAt"@
    } else if i == 4 {
        "updatedAt"@
    } else {
        "title"@
    }
}

/// Escaped text of a text value; `None` when the value is not text.
pub open spec fn text_param(key: Seq<char>, v: FilterValue) -> Seq<char> {
    match v {
        FilterValue::Text(t) => key + percent_encoded(EscapeStyle::Component, encode_utf8(t@)),
        _ => Seq::empty(),
    }
}

/// What one filter adds to the query: nothing for what is not recognized or
/// has no usable value.
pub open spec fn filter_clause(f: Filter, langs: Seq<String>) -> Seq<char> {
    let v = int_of(f.value);
    match f.kind {
        FilterType::Title => text_param("&title="@, f.value),
        FilterType::Author => text_param("&author="@, f.value),
        FilterType::Check => {
            if v < 0 {
                Seq::empty()
            } else {
                match f.id {
                    Some(id) => if v == 0 {
                        replace_all(id@, "&originalLanguage"@, "&excludedOriginalLanguage"@)
                    } else {
                        id@
                    },
                    None => if f.name@ == "Has available chapters"@ && v == 1 {
                        "&hasAvailableChapters=true"@ + repeated_param(
                            "&availableTranslatedLanguage[]="@,
                            langs,
                        )
                    } else {
                        Seq::empty()
                    },
                }
            }
        },
        FilterType::Genre => match f.id {
            Some(id) => if v == 0 {
                "&excludedTags[]="@ + id@
            } else if v == 1 {
                "&includedTags[]="@ + id@
            } else {
                Seq::empty()
            },
            None => Seq::empty(),
        },
        FilterType::Sort => match f.value {
            FilterValue::Sort { index: Some(i), ascending: Some(asc) } => {
                if 0 <= i <= 5 {
                    "&order["@ + sort_key(i as int) + "]="@ + (if asc {
                        "asc"@
                    } else {
                        "desc"@
                    })
                } else {
                    Seq::empty()
                }
            },
            _ => Seq::empty(),
        },
        FilterType::Select => if f.name@ == "Included tags mode"@ {
            "&includedTagsMode="@ + (if v == 1 {
                "OR"@
            } else {
                "AND"@
            })
        } else if f.name@ == "Excluded tags mode"@ {
            "&excludedTagsMode="@ + (if v == 0 {
                "AND"@
            } else {
                "OR"@
            })
        } else {
            Seq::empty()
        },
        _ => Seq::empty(),
    }
}

/// Whether a tag filter among `prev` already sends tag `t`, to either side.
pub open spec fn tag_sent(prev: Seq<Filter>, t: Seq<char>) -> bool {
    exists|k: int|
        0 <= k < prev.len() && prev[k].kind == FilterType::Genre && #[trigger] tag_of(prev[k]) == Some(t)
            && (int_of(prev[k].value) == 0 || int_of(prev[k].value) == 1)
}

/// What filter `f` adds after the filters `prev`: a tag that an earlier tag
/// filter already sent is left out, so that the first one decides its side.
pub open spec fn clause_in(prev: Seq<Filter>, f: Filter, langs: Seq<String>) -> Seq<char> {
    if f.kind == FilterType::Genre && f.id is Some && tag_sent(prev, f.id->Some_0@) {
        Seq::empty()
    } else {
        filter_clause(f, langs)
    }
}

/// The clauses of all filters, in order.
pub open spec fn filters_query(fs: Seq<Filter>, langs: Seq<String>) -> Seq<char>
    decreases fs.len(),
{
    if fs.len() == 0 {
        Seq::empty()
    } else {
        filters_query(fs.drop_last(), langs) + clause_in(fs.drop_last(), fs.last(), langs)
    }
}

/// Zero-based record offset of a one-based page.
pub open spec fn page_offset(page: int) -> int {
    (page - 1) * LIST_PAGE_SIZE
}

/// The listing request for `page` under the filters `fs`.
pub open spec fn manga_list_url_spec(fs: Seq<Filter>, page: int, langs: Seq<String>) -> Seq<char> {
    "https://api.mangadex.org/manga/?includes[]=cover_art&limit=20&offset="@ + decimal(
        page_offset(page),
    ) + filters_query(fs, langs)
}

/// Relies on `str::replace`: every match of a non-empty `from`, left to right,
/// becomes `to`.
#[verifier::external_body]
pub(crate) fn replace(s: &str, from: &str, to: &str) -> (r: String)
    requires
        from@.len() > 0,
    ensures
        r@ == replace_all(s@, from@, to@),
{
    s.replace(from, to)
}

/// Percent-escapes every byte of `string` but ASCII letters and digits, with
/// lower-case hex digits.
pub fn urlencode(string: &str) -> (r: String)
    ensures
        r@ == percent_encoded(EscapeStyle::Component, encode_utf8(string@)),
{
    percent_encode(string.as_bytes(), EscapeStyle::Component)
}

/// Whether `s` reads exactly `lit`.
pub fn is_named(s: &String, lit: &str) -> (r: bool)
    ensures
        r == (s@ == lit@),
{
    let t = lit.to_owned();
    *s == t
}

/// Appends `key` and each of `values` in turn.
pub fn push_repeated(out: &mut String, key: &str, values: &Vec<String>)
    ensures
        final(out)@ == old(out)@ + repeated_param(key@, values@),
{
    let mut i: usize = 0;
    while i < values.len()
        invariant
            0 <= i <= values@.len(),
            out@ == old(out)@ + repeated_param(key@, values@.subrange(0, i as int)),
        decreases values@.len() - i,
    {
        out.append(key);
        out.append(values[i].as_str());
        assert(values@.subrange(0, i + 1).drop_last() =~= values@.subrange(0, i as int));
        i = i + 1;
        assert(out@ =~= old(out)@ + repeated_param(key@, values@.subrange(0, i as int)));
    }
    assert(values@.subrange(0, i as int) =~= values@);
}

fn sort_key_str(i: i64) -> (r: &'static str)
    requires
        0 <= i <= 5,
    ensures
        r@ == sort_key(i as int),
{
    if i == 0 {
        "latestUploadedChapter"
    } else if i == 1 {
        "relevance"
    } else if i == 2 {
        "followedCount"
    } else if i == 3 {
        "createdAt"
    } else if i == 4 {
        "updatedAt"
    } else {
        "title"
    }
}

fn int_value(v: &FilterValue) -> (r: i64)
    ensures
        r as int == int_of(*v),
{
    match v {
        FilterValue::Int(i) => *i,
        _ => -1,
    }
}

/// Appends what one filter contributes to the query.
pub fn push_filter_clause(out: &mut String, f: &Filter, languages: &Vec<String>)
    ensures
        final(out)@ == old(out)@ + filter_clause(*f, languages@),
{
    let v = int_value(&f.value);
    let ghost start = out@;
    match f.kind {
        FilterType::Title | FilterType::Author => {
            if let FilterValue::Text(t) = &f.value {
                if f.kind == FilterType::Title {
                    out.append("&title=");
                } else {
                    out.append("&author=");
                }
                let e = urlencode(t.as_str());
                out.append(e.as_str());
            }
        },
        FilterType::Check => {
            if v >= 0 {
                match &f.id {
                    Some(id) => {
                        if v == 0 {
                            proof {
                                reveal_strlit("&originalLanguage");
                            }
                            let r = replace(id.as_str(), "&originalLanguage", "&excludedOriginalLanguage");
                            out.append(r.as_str());
                        } else {
                            out.append(id.as_str());
                        }
                    },
                    None => {
                        if is_named(&f.name, "Has available chapters") && v == 1 {
                            out.append("&hasAvailableChapters=true");
                            push_repeated(out, "&availableTranslatedLanguage[]=", languages);
                        }
                    },
                }
            }
        },
        FilterType::Genre => {
            if let Some(id) = &f.id {
                if v == 0 {
                    out.append("&excludedTags[]=");
                    out.append(id.as_str());
                } else if v == 1 {
                    out.append("&includedTags[]=");
                    out.append(id.as_str());
                }
            }
        },
        FilterType::Sort => {
            if let FilterValue::Sort { index: Some(i), ascending: Some(asc) } = &f.value {
                let i: i64 = *i;
                if 0 <= i && i <= 5 {
                    out.append("&order[");
                    out.append(sort_key_str(i));
                    out.append("]=");
                    if *asc {
                        out.append("asc");
                    } else {
                        out.append("desc");
                    }
                }
            }
        },
        FilterType::Select => {
            if is_named(&f.name, "Included tags mode") {
                out.append("&includedTagsMode=");
                if v == 1 {
                    out.append("OR");
                } else {
                    out.append("AND");
                }
            } else if is_named(&f.name, "Excluded tags mode") {
                out.append("&excludedTagsMode=");
                if v == 0 {
                    out.append("AND");
                } else {
                    out.append("OR");
                }
            }
        },
        _ => {},
    }
    assert(out@ =~= start + filter_clause(*f, languages@));
}

/// The query clauses of all `filters`, in order. Filters that are not
/// recognized, or carry no usable value, add nothing: translation never fails.
/// A tag goes to the side of the first tag filter that sends it.
pub fn translate_filters(filters: &Vec<Filter>, languages: &Vec<String>) -> (r: String)
    ensures
        r@ == filters_query(filters@, languages@),
{
    let mut out = String::new();
    let mut sent: Vec<String> = Vec::new();
    let mut i: usize = 0;
    while i < filters.len()
        invariant
            0 <= i <= filters@.len(),
            out@ == filters_query(filters@.subrange(0, i as int), languages@),
            forall|t: Seq<char>|
                #![trigger views(sent@).contains(t)]
                views(sent@).contains(t) <==> tag_sent(filters@.subrange(0, i as int), t),
        decreases filters@.len() - i,
    {
        let f = &filters[i];
        let ghost prev = filters@.subrange(0, i as int);
        let ghost next = filters@.subrange(0, i + 1);
        assert(next.drop_last() =~= prev);
        assert(next.last() == *f);
        let ghost old_views = views(sent@);
        let mut tag_side = false;
        let mut skip = false;
        if f.kind == FilterType::Genre {
            if let Some(id) = &f.id {
                skip = contains_str(&sent, id);
                let v = int_value(&f.value);
                tag_side = v == 0 || v == 1;
            }
        }
        if !skip {
            push_filter_clause(&mut out, f, languages);
        }
        assert(out@ == filters_query(next, languages@));
        if !skip && tag_side {
            if let Some(id) = &f.id {
                sent.push(id.clone());
                assert(views(sent@) =~= old_views.push(id@));
            }
        }
        proof {
            let sends = f.kind == FilterType::Genre && f.id is Some && (int_of(f.value) == 0 || int_of(f.value) == 1);
            assert(sends ==> tag_side);
            assert(sends && !skip ==> views(sent@) == old_views.push(f.id->Some_0@));
            assert(!(sends && !skip) ==> views(sent@) == old_views);
            assert forall|t: Seq<char>| #[trigger] views(sent@).contains(t) <==> tag_sent(next, t) by {
                let here = sends && f.id->Some_0@ == t;
                assert(tag_sent(next, t) <==> (tag_sent(prev, t) || here)) by {
                    if tag_sent(prev, t) {
                        let k = choose|k: int|
                            0 <= k < prev.len() && prev[k].kind == FilterType::Genre && #[trigger] tag_of(prev[k])
                                == Some(t) && (int_of(prev[k].value) == 0 || int_of(prev[k].value) == 1);
                        assert(next[k] == prev[k]);
                    }
                    if here {
                        assert(tag_of(next[i as int]) == Some(t));
                    }
                    if tag_sent(next, t) {
                        let k = choose|k: int|
                            0 <= k < next.len() && next[k].kind == FilterType::Genre && #[trigger] tag_of(next[k])
                                == Some(t) && (int_of(next[k].value) == 0 || int_of(next[k].value) == 1);
                        if k < i {
                            assert(prev[k] == next[k]);
                            assert(tag_sent(prev, t));
                        }
                    }
                }
                if sends && !skip {
                    let x = f.id->Some_0@;
                    let pv = old_views.push(x);
                    if x == t {
                        assert(pv[old_views.len() as int] == t);
                    }
                    if old_views.contains(t) {
                        let k = choose|k: int| 0 <= k < old_views.len() && old_views[k] == t;
                        assert(pv[k] == t);
                    }
                    if pv.contains(t) {
                        let k = choose|k: int| 0 <= k < pv.len() && pv[k] == t;
                        if k < old_views.len() {
                            assert(old_views[k] == t);
                        }
                    }
                }
            }
        }
        i = i + 1;
    }
    assert(filters@.subrange(0, i as int) =~= filters@);
    out
}

/// The catalog listing request for a one-based `page` under `filters`;
/// `languages` are the preferred languages, used by the availability toggle.
pub fn manga_list_url(filters: &Vec<Filter>, page: i32, languages: &Vec<String>) -> (r: String)
    ensures
        r@ == manga_list_url_spec(filters@, page as int, languages@),
{
    let offset: i64 = (page as i64 - 1) * LIST_PAGE_SIZE;
    let mut url = "https://api.mangadex.org/manga/?includes[]=cover_art&limit=20&offset=".to_owned();
    push_signed(&mut url, offset);
    let q = translate_filters(filters, languages);
    url.append(q.as_str());
    url
}

/// Whether records remain past the page that starts at `offset`.
pub fn has_more(offset: i64, page_size: i64, total: i64) -> (r: bool)
    ensures
        r == (offset + page_size < total),
{
    (offset as i128) + (page_size as i128) < (total as i128)
}

/// Whether a filter is of a kind, or bears a name, that translation does not know.
pub open spec fn unrecognized(f: Filter) -> bool {
    match f.kind {
        FilterType::Base | FilterType::Group => true,
        FilterType::Select => f.name@ != "Included tags mode"@ && f.name@ != "Excluded tags mode"@,
        FilterType::Check => f.id is None && f.name@ != "Has available chapters"@,
        _ => false,
    }
}

/// The identifier a filter carries, as text.
pub open spec fn tag_of(f: Filter) -> Option<Seq<char>> {
    match f.id {
        Some(id) => Some(id@),
        None => None,
    }
}

/// A list of filters made only of unrecognized ones translates to the bare
/// listing request: translation degrades to nothing and never fails.
pub proof fn lemma_unrecognized_filters_ignored(fs: Seq<Filter>, page: int, langs: Seq<String>)
    requires
        forall|i: int| 0 <= i < fs.len() ==> unrecognized(#[trigger] fs[i]),
    ensures
        filters_query(fs, langs) == Seq::<char>::empty(),
        manga_list_url_spec(fs, page, langs) == manga_list_url_spec(Seq::empty(), page, langs),
    decreases fs.len(),
{
    if fs.len() > 0 {
        let last = fs.last();
        assert(unrecognized(fs[fs.len() - 1]));
        lemma_unrecognized_filters_ignored(fs.drop_last(), page, langs);
        assert(filter_clause(last, langs) == Seq::<char>::empty());
        assert(filters_query(fs, langs) =~= Seq::<char>::empty());
    }
    assert(filters_query(Seq::<Filter>::empty(), langs) == Seq::<char>::empty());
    assert(manga_list_url_spec(fs, page, langs) =~= manga_list_url_spec(Seq::empty(), page, langs));
}

/// The clause that the `i`-th of `fs` adds to the query.
pub open spec fn clause_of(fs: Seq<Filter>, i: int, langs: Seq<String>) -> Seq<char> {
    clause_in(fs.subrange(0, i), fs[i], langs)
}

proof fn lemma_tag_clause(f: Filter, langs: Seq<String>, t: Seq<char>)
    requires
        f.kind == FilterType::Genre,
    ensures
        filter_clause(f, langs) == "&includedTags[]="@ + t ==> int_of(f.value) == 1 && tag_of(f) == Some(t),
        filter_clause(f, langs) == "&excludedTags[]="@ + t ==> int_of(f.value) == 0 && tag_of(f) == Some(t),
{
    reveal_strlit("&includedTags[]=");
    reveal_strlit("&excludedTags[]=");
    let inc = "&includedTags[]="@;
    let exc = "&excludedTags[]="@;
    let c = filter_clause(f, langs);
    if c == inc + t || c == exc + t {
        assert(c.len() > 0);
        let id = f.id->Some_0@;
        let v = int_of(f.value);
        if v == 1 {
            assert(c == inc + id);
            assert((inc + id)[1] == 'i');
            assert((exc + t)[1] == 'e');
            assert((inc + id).subrange(16, c.len() as int) =~= id);
            assert((inc + t).subrange(16, (inc + t).len() as int) =~= t);
        } else {
            assert(c == exc + id);
            assert((exc + id)[1] == 'e');
            assert((inc + t)[1] == 'i');
            assert((exc + id).subrange(16, c.len() as int) =~= id);
            assert((exc + t).subrange(16, (exc + t).len() as int) =~= t);
        }
    }
}

/// For every filter list, the listing request is built from one clause per
/// filter, in order; and no tag is sent both as included and as excluded:
/// the first tag filter that sends a tag decides its side.
pub proof fn lemma_tag_never_both_sides(fs: Seq<Filter>, page: int, langs: Seq<String>)
    ensures
        manga_list_url_spec(fs, page, langs)
            == "https://api.mangadex.org/manga/?includes[]=cover_art&limit=20&offset="@ + decimal(
            page_offset(page),
        ) + filters_query(fs.subrange(0, fs.len() as int), langs),
        forall|i: int|
            0 <= i < fs.len() ==> #[trigger] filters_query(fs.subrange(0, i + 1), langs) == filters_query(
                fs.subrange(0, i),
                langs,
            ) + clause_of(fs, i, langs),
        forall|i: int, j: int, t: Seq<char>|
            #![trigger clause_of(fs, i, langs), clause_of(fs, j, langs), "&includedTags[]="@ + t]
            0 <= i < fs.len() && 0 <= j < fs.len() && fs[i].kind == FilterType::Genre
                && fs[j].kind == FilterType::Genre ==> !(clause_of(fs, i, langs) == "&includedTags[]="@ + t
                && clause_of(fs, j, langs) == "&excludedTags[]="@ + t),
{
    assert(fs.subrange(0, fs.len() as int) =~= fs);
    assert forall|i: int| 0 <= i < fs.len() implies #[trigger] filters_query(fs.subrange(0, i + 1), langs)
        == filters_query(fs.subrange(0, i), langs) + clause_of(fs, i, langs) by {
        assert(fs.subrange(0, i + 1).drop_last() =~= fs.subrange(0, i));
        assert(fs.subrange(0, i + 1).last() == fs[i]);
    }
    assert forall|i: int, j: int, t: Seq<char>|
        #![trigger clause_of(fs, i, langs), clause_of(fs, j, langs), "&includedTags[]="@ + t]
        0 <= i < fs.len() && 0 <= j < fs.len() && fs[i].kind == FilterType::Genre
            && fs[j].kind == FilterType::Genre implies !(clause_of(fs, i, langs) == "&includedTags[]="@ + t
            && clause_of(fs, j, langs) == "&excludedTags[]="@ + t) by {
        reveal_strlit("&includedTags[]=");
        reveal_strlit("&excludedTags[]=");
        if clause_of(fs, i, langs) == "&includedTags[]="@ + t && clause_of(fs, j, langs) == "&excludedTags[]="@ + t {
            assert(clause_of(fs, i, langs).len() > 0);
            assert(clause_of(fs, j, langs).len() > 0);
            assert(clause_of(fs, i, langs) == filter_clause(fs[i], langs));
            assert(clause_of(fs, j, langs) == filter_clause(fs[j], langs));
            lemma_tag_clause(fs[i], langs, t);
            lemma_tag_clause(fs[j], langs, t);
            if i < j {
                let prev = fs.subrange(0, j);
                assert(prev[i] == fs[i]);
                assert(tag_sent(prev, t));
                assert(fs[j].id->Some_0@ == t);
            } else if j < i {
                let prev = fs.subrange(0, i);
                assert(prev[j] == fs[j]);
                assert(tag_sent(prev, t));
                assert(fs[i].id->Some_0@ == t);
            }
        }
    }
}

} // verus!
