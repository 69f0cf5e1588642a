//! Chapters and the pages of one chapter.
use vstd::prelude::*;
use vstd::string::StringExecFns;
use crate::records::{Relationship, related, related_name};

verus! {

/// One raw chapter record, as decoded from the API. `publish_at` is in
/// seconds since the epoch.
#[derive(Debug)]
pub struct ChapterRecord {
    pub id: Option<String>,
    pub title: Option<String>,
    pub volume: Option<String>,
    pub chapter: Option<String>,
    pub publish_at: Option<i64>,
    pub lang: Option<String>,
    pub relationships: Vec<Relationship>,
}

/// A chapter. `volume` and `chapter` hold the number as the API wrote it,
/// empty when it is missing; `date_updated` is `-1` when unknown.
#[derive(Debug)]
pub struct Chapter {
    pub id: String,
    pub title: String,
    pub volume: String,
    pub chapter: String,
    pub date_updated: i64,
    pub scanlator: String,
    pub url: String,
    pub lang: String,
}

/// A chapter as plain values.
pub struct ChapterView {
    pub id: Seq<char>,
    pub title: Seq<char>,
    pub volume: Seq<char>,
    pub chapter: Seq<char>,
    pub date_updated: int,
    pub scanlator: Seq<char>,
    pub url: Seq<char>,
    pub lang: Seq<char>,
}

impl View for Chapter {
    type V = ChapterView;

    open spec fn view(&self) -> ChapterView {
        ChapterView {
            id: self.id@,
            title: self.title@,
            volume: self.volume@,
            chapter: self.chapter@,
            date_updated: self.date_updated as int,
            scanlator: self.scanlator@,
            url: self.url@,
            lang: self.lang@,
        }
    }
}

/// The text of an optional string, empty when absent.
pub open spec fn text_or_empty(o: Option<String>) -> Seq<char> {
    match o {
        Some(s) => s@,
        None => Seq::empty(),
    }
}

fn or_empty(o: &Option<String>) -> (r: String)
    ensures
        r@ == text_or_empty(*o),
{
    match o {
        Some(s) => s.clone(),
        None => String::new(),
    }
}

/// A chapter record can be mapped when it has an identifier.
pub open spec fn chapter_well_formed(r: ChapterRecord) -> bool {
    r.id is Some
}

/// The chapter a well-formed record maps to.
pub open spec fn chapter_of(r: ChapterRecord) -> ChapterView {
    let id = r.id->Some_0@;
    ChapterView {
        id: id,
        title: text_or_empty(r.title),
        volume: text_or_empty(r.volume),
        chapter: text_or_empty(r.chapter),
        date_updated: match r.publish_at {
            Some(t) => t as int,
            None => -1,
        },
        scanlator: related_name(r.relationships@, "scanlation_group"@),
        url: "https://mangadex.org/chapter/"@ + id,
        lang: text_or_empty(r.lang),
    }
}

/// Maps one record to a chapter; fails on a record without identifier.
pub fn parse_chapter(rec: &ChapterRecord) -> (r: Result<Chapter, crate::records::MalformedRecord>)
    ensures
        match r {
            Ok(c) => chapter_well_formed(*rec) && c@ == chapter_of(*rec),
            Err(_) => !chapter_well_formed(*rec),
        },
{
    let id = match &rec.id {
        Some(id) => id,
        None => return Err(crate::records::MalformedRecord),
    };
    let mut url = "https://mangadex.org/chapter/".to_owned();
    url.append(id.as_str());
    let date_updated: i64 = match rec.publish_at {
        Some(t) => t,
        None => -1,
    };
    Ok(Chapter {
        id: id.clone(),
        title: or_empty(&rec.title),
        volume: or_empty(&rec.volume),
        chapter: or_empty(&rec.chapter),
        date_updated,
        scanlator: related(&rec.relationships, "scanlation_group"),
        url,
        lang: or_empty(&rec.lang),
    })
}

/// The chapters of the well-formed records, in order.
pub open spec fn mapped_chapters(recs: Seq<ChapterRecord>) -> Seq<ChapterView>
    decreases recs.len(),
{
    if recs.len() == 0 {
        Seq::empty()
    } else if chapter_well_formed(recs.last()) {
        mapped_chapters(recs.drop_last()).push(chapter_of(recs.last()))
    } else {
        mapped_chapters(recs.drop_last())
    }
}

pub open spec fn chapter_views(v: Seq<Chapter>) -> Seq<ChapterView> {
    v.map_values(|c: Chapter| c@)
}

/// Maps each record in turn onto the end of `out`, dropping those that cannot
/// be mapped; the order given is kept.
pub fn push_chapter_records(out: &mut Vec<Chapter>, recs: &Vec<ChapterRecord>)
    ensures
        chapter_views(final(out)@) == chapter_views(old(out)@) + mapped_chapters(recs@),
{
    let mut i: usize = 0;
    while i < recs.len()
        invariant
            0 <= i <= recs@.len(),
            chapter_views(out@) == chapter_views(old(out)@) + mapped_chapters(recs@.subrange(0, i as int)),
        decreases recs@.len() - i,
    {
        let ghost before = out@;
        assert(recs@.subrange(0, i + 1).drop_last() =~= recs@.subrange(0, i as int));
        if let Ok(c) = parse_chapter(&recs[i]) {
            out.push(c);
            assert(chapter_views(out@) =~= chapter_views(before).push(c@));
        }
        i = i + 1;
        assert(chapter_views(out@) =~= chapter_views(old(out)@) + mapped_chapters(recs@.subrange(0, i as int)));
    }
    assert(recs@.subrange(0, i as int) =~= recs@);
}

/// One page of a chapter: its zero-based position and its image.
#[derive(Debug)]
pub struct Page {
    pub index: i32,
    pub url: String,
}

/// The request for the image server of chapter `id`.
pub fn page_list_url(id: &str, force_standard_port: bool) -> (r: String)
    ensures
        r@ == "https://api.mangadex.org/at-home/server/"@ + id@ + (if force_standard_port {
            "?forcePort443=true"@
        } else {
            Seq::empty()
        }),
{
    let mut url = "https://api.mangadex.org/at-home/server/".to_owned();
    url.append(id);
    if force_standard_port {
        url.append("?forcePort443=true");
    }
    url
}

/// The key under which the server lists the chapter's image files.
pub fn page_files_key(data_saver: bool) -> (r: &'static str)
    ensures
        r@ == (if data_saver {
            "dataSaver"@
        } else {
            "data"@
        }),
{
    if data_saver {
        "dataSaver"
    } else {
        "data"
    }
}

/// The image of file `file` of the chapter with `hash` on server `base`.
pub open spec fn page_url(base: Seq<char>, hash: Seq<char>, file: Seq<char>, data_saver: bool) -> Seq<char> {
    base + (if data_saver {
        "/data-saver/"@
    } else {
        "/data/"@
    }) + hash + "/"@ + file
}

/// The pages of a chapter, one for each image file, indexed from 0 without gap.
pub fn page_list(base_url: &str, hash: &str, files: &Vec<String>, data_saver: bool) -> (r: Vec<Page>)
    requires
        files@.len() <= i32::MAX,
    ensures
        r@.len() == files@.len(),
        forall|i: int|
            0 <= i < r@.len() ==> #[trigger] r@[i].index == i && r@[i].url@ == page_url(
                base_url@,
                hash@,
                files@[i]@,
                data_saver,
            ),
{
    let mut pages: Vec<Page> = Vec::new();
    let mut i: usize = 0;
    while i < files.len()
        invariant
            files@.len() <= i32::MAX,
            0 <= i <= files@.len(),
            pages@.len() == i,
            forall|k: int|
                0 <= k < i ==> #[trigger] pages@[k].index == k && pages@[k].url@ == page_url(
                    base_url@,
                    hash@,
                    files@[k]@,
                    data_saver,
                ),
        decreases files@.len() - i,
    {
        let mut url = base_url.to_owned();
        if data_saver {
            url.append("/data-saver/");
        } else {
            url.append("/data/");
        }
        url.append(hash);
        url.append("/");
        url.append(files[i].as_str());
        assert(url@ =~= page_url(base_url@, hash@, files@[i as int]@, data_saver));
        let ghost before = pages@;
        pages.push(Page { index: i as i32, url });
        assert(pages@[i as int].index == i as int);
        assert(forall|k: int| 0 <= k < i ==> pages@[k] == before[k]);
        i = i + 1;
    }
    pages
}

} // verus!
