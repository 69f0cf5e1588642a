//! Listing requests, the chapter feed walked page by page, and the joining of
//! recent chapters to their entries.
use vstd::prelude::*;
use vstd::string::StringExecFns;
use crate::text::{decimal, push_signed};
use crate::query::{Filter, FilterType, FilterValue, LIST_PAGE_SIZE, page_offset, repeated_param, push_repeated, has_more};
use crate::records::{Relationship, Manga, MangaRecord, views, dedup, push_distinct, parse_manga_records, mapped_mangas, manga_views, opt_view, lemma_dedup};
use crate::chapters::ChapterRecord;
use crate::query::is_named;

verus! {

/// One page of a catalog listing.
#[derive(Debug)]
pub struct MangaPageResult {
    pub manga: Vec<Manga>,
    pub has_more: bool,
}

/// The listing page `page` (one-based) of `total` records, holding the
/// entries of the well-formed `records`; more follow when the page ends
/// before the total.
pub fn manga_page(records: &Vec<MangaRecord>, preferred: &Option<String>, page: i32, total: i64) -> (r: MangaPageResult)
    ensures
        manga_views(r.manga@) == mapped_mangas(records@, opt_view(*preferred)),
        r.has_more == (page_offset(page as int) + LIST_PAGE_SIZE < total),
{
    let offset: i64 = (page as i64 - 1) * LIST_PAGE_SIZE;
    MangaPageResult {
        manga: parse_manga_records(records, preferred),
        has_more: has_more(offset, LIST_PAGE_SIZE, total),
    }
}

/// The filters a named listing stands for: the most followed first for
/// `Popular`, none otherwise.
pub fn listing_filters(listing_name: &String) -> (r: Vec<Filter>)
    ensures
        listing_name@ == "Popular"@ ==> r@.len() == 1 && r@[0].kind == FilterType::Sort
            && r@[0].value == (FilterValue::Sort { index: Some(2), ascending: Some(false) })
            && r@[0].name@ == "Sort"@ && r@[0].id is None,
        listing_name@ != "Popular"@ ==> r@.len() == 0,
{
    let mut filters: Vec<Filter> = Vec::new();
    if is_named(listing_name, "Popular") {
        filters.push(
            Filter {
                kind: FilterType::Sort,
                name: "Sort".to_owned(),
                value: FilterValue::Sort { index: Some(2), ascending: Some(false) },
                id: None,
            },
        );
    }
    filters
}

/// Whether a named listing is built from the feed of recent chapters.
pub fn is_latest_listing(listing_name: &String) -> (r: bool)
    ensures
        r == (listing_name@ == "Latest"@),
{
    is_named(listing_name, "Latest")
}

/// The request for recently published chapters, for a one-based `page`.
pub fn latest_chapters_url(page: i32, languages: &Vec<String>) -> (r: String)
    ensures
        r@ == "https://api.mangadex.org/chapter?includes[]=manga&order[publishAt]=desc&includeFutureUpdates=0&limit=20&offset="@
            + decimal(page_offset(page as int)) + repeated_param("&translatedLanguage[]="@, languages@),
{
    let offset: i64 = (page as i64 - 1) * LIST_PAGE_SIZE;
    let mut url = "https://api.mangadex.org/chapter?includes[]=manga&order[publishAt]=desc&includeFutureUpdates=0&limit=20&offset=".to_owned();
    push_signed(&mut url, offset);
    push_repeated(&mut url, "&translatedLanguage[]=", languages);
    url
}

/// Identifiers of the related objects of kind `kind`, in order.
pub open spec fn ids_of_kind(rels: Seq<Relationship>, kind: Seq<char>) -> Seq<Seq<char>>
    decreases rels.len(),
{
    if rels.len() == 0 {
        Seq::empty()
    } else {
        ids_of_kind(rels.drop_last(), kind) + (if rels.last().kind@ == kind {
            seq![rels.last().id@]
        } else {
            Seq::empty()
        })
    }
}

/// The entries referenced by the chapters, in order of reference.
pub open spec fn manga_refs(chapters: Seq<ChapterRecord>) -> Seq<Seq<char>>
    decreases chapters.len(),
{
    if chapters.len() == 0 {
        Seq::empty()
    } else {
        manga_refs(chapters.drop_last()) + ids_of_kind(chapters.last().relationships@, "manga"@)
    }
}

proof fn lemma_dedup_push(s: Seq<Seq<char>>, x: Seq<char>)
    ensures
        dedup(s.push(x)) == (if dedup(s).contains(x) {
            dedup(s)
        } else {
            dedup(s).push(x)
        }),
{
    assert(s.push(x).drop_last() =~= s);
}

/// The distinct entries referenced by the chapters, each where first referenced.
pub fn collect_manga_ids(chapters: &Vec<ChapterRecord>) -> (r: Vec<String>)
    ensures
        views(r@) == dedup(manga_refs(chapters@)),
        views(r@).no_duplicates(),
        views(r@).to_set() == manga_refs(chapters@).to_set(),
{
    let mut ids: Vec<String> = Vec::new();
    let mut i: usize = 0;
    proof {
        reveal_strlit("manga");
    }
    while i < chapters.len()
        invariant
            0 <= i <= chapters@.len(),
            views(ids@) == dedup(manga_refs(chapters@.subrange(0, i as int))),
        decreases chapters@.len() - i,
    {
        let rels = &chapters[i].relationships;
        let ghost prefix = manga_refs(chapters@.subrange(0, i as int));
        let mut j: usize = 0;
        while j < rels.len()
            invariant
                0 <= j <= rels@.len(),
                rels@ == chapters@[i as int].relationships@,
                views(ids@) == dedup(prefix + ids_of_kind(rels@.subrange(0, j as int), "manga"@)),
            decreases rels@.len() - j,
        {
            let ghost s = prefix + ids_of_kind(rels@.subrange(0, j as int), "manga"@);
            assert(rels@.subrange(0, j + 1).drop_last() =~= rels@.subrange(0, j as int));
            if is_named(&rels[j].kind, "manga") {
                push_distinct(&mut ids, &rels[j].id);
                proof {
                    lemma_dedup_push(s, rels@[j as int].id@);
                }
                assert(prefix + ids_of_kind(rels@.subrange(0, j + 1), "manga"@) =~= s.push(rels@[j as int].id@));
            } else {
                assert(prefix + ids_of_kind(rels@.subrange(0, j + 1), "manga"@) =~= s);
            }
            j = j + 1;
        }
        assert(rels@.subrange(0, j as int) =~= rels@);
        assert(chapters@.subrange(0, i + 1).drop_last() =~= chapters@.subrange(0, i as int));
        i = i + 1;
    }
    assert(chapters@.subrange(0, i as int) =~= chapters@);
    proof {
        lemma_dedup(manga_refs(chapters@));
    }
    ids
}

/// The one batched request for the entries with identifiers `ids`.
pub fn manga_batch_url(ids: &Vec<String>) -> (r: String)
    ensures
        r@ == "https://api.mangadex.org/manga?includes[]=cover_art&order[updatedAt]=desc&contentRating[]=erotica&contentRating[]=suggestive&contentRating[]=safe"@
            + repeated_param("&ids[]="@, ids@),
{
    let mut url = "https://api.mangadex.org/manga?includes[]=cover_art&order[updatedAt]=desc&contentRating[]=erotica&contentRating[]=suggestive&contentRating[]=safe".to_owned();
    push_repeated(&mut url, "&ids[]=", ids);
    url
}

/// The request for the details of entry `id`.
pub fn manga_details_url(id: &str) -> (r: String)
    ensures
        r@ == "https://api.mangadex.org/manga/"@ + id@ + "?includes[]=cover_art&includes[]=author&includes[]=artist"@,
{
    let mut url = "https://api.mangadex.org/manga/".to_owned();
    url.append(id);
    url.append("?includes[]=cover_art&includes[]=author&includes[]=artist");
    url
}

/// The request for chapter `id`.
pub fn chapter_details_url(id: &str) -> (r: String)
    ensures
        r@ == "https://api.mangadex.org/chapter/"@ + id@,
{
    let mut url = "https://api.mangadex.org/chapter/".to_owned();
    url.append(id);
    url
}

} // verus!
