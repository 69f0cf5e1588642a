//! Classification of externally shared links into the entries they name.
use vstd::prelude::*;
use crate::text::push_char;
use crate::strings::{chars_of, starts_with};
use crate::records::{
    find_kind, is_first_of_kind, has_kind, Manga, MangaRecord, manga_of,
    manga_well_formed, parse_manga, opt_view,
};
use crate::chapters::{Chapter, ChapterRecord, chapter_of, chapter_well_formed, parse_chapter};

verus! {

/// What a shared link names.
#[derive(Debug)]
pub enum LinkTarget {
    /// A catalog entry, by identifier.
    Manga(String),
    /// A chapter, by identifier.
    Chapter(String),
    /// A link of no known shape.
    Unsupported,
}

/// A link that this library cannot resolve.
#[derive(Clone, Copy, Debug, PartialEq, Eq, Structural)]
pub struct UnsupportedLink;

pub open spec fn entry_prefix() -> Seq<char> {
    "https://mangadex.org/title/"@
}

pub open spec fn chapter_prefix() -> Seq<char> {
    "https://mangadex.org/chapter/"@
}

/// `id` is the non-empty run of `rest` up to its first `/` or its end.
pub open spec fn is_segment(id: Seq<char>, rest: Seq<char>) -> bool {
    &&& 0 < id.len() <= rest.len()
    &&& rest.subrange(0, id.len() as int) == id
    &&& !id.contains('/')
    &&& (id.len() == rest.len() || rest[id.len() as int] == '/')
}

/// `url` is `prefix` followed by the identifier `id` and, optionally, `/` and more.
pub open spec fn names_after(url: Seq<char>, prefix: Seq<char>, id: Seq<char>) -> bool {
    &&& url.len() >= prefix.len()
    &&& url.subrange(0, prefix.len() as int) == prefix
    &&& is_segment(id, url.subrange(prefix.len() as int, url.len() as int))
}

/// The identifier after `from`: the characters up to the next `/` or the end.
/// `None` when that run is empty.
fn segment_at(s: &Vec<char>, from: usize) -> (r: Option<String>)
    requires
        from <= s@.len(),
    ensures
        match r {
            Some(id) => is_segment(id@, s@.subrange(from as int, s@.len() as int)),
            None => forall|id: Seq<char>| !is_segment(id, s@.subrange(from as int, s@.len() as int)),
        },
{
    let ghost rest = s@.subrange(from as int, s@.len() as int);
    let mut id = String::new();
    let mut i: usize = from;
    while i < s.len() && s[i] != '/'
        invariant
            from <= i <= s@.len(),
            rest == s@.subrange(from as int, s@.len() as int),
            id@ == s@.subrange(from as int, i as int),
            forall|j: int| from <= j < i ==> s@[j] != '/',
        decreases s@.len() - i,
    {
        push_char(&mut id, s[i]);
        i = i + 1;
        assert(id@ =~= s@.subrange(from as int, i as int));
    }
    assert(id@ =~= rest.subrange(0, (i - from) as int));
    if i == from {
        assert forall|x: Seq<char>| !is_segment(x, rest) by {
            if is_segment(x, rest) {
                assert(rest.subrange(0, x.len() as int)[0] == rest[0]);
                assert(x.contains(x[0]));
            }
        }
        None
    } else {
        assert forall|k: int| 0 <= k < id@.len() implies id@[k] != '/' by {
            assert(id@[k] == s@[from + k]);
        }
        Some(id)
    }
}

/// Classifies a shared link: `https://mangadex.org/title/<id>[/...]` names an
/// entry, `https://mangadex.org/chapter/<id>[/...]` a chapter, and any other
/// shape (an empty identifier included) is unsupported.
pub fn classify_link(url: &str) -> (r: LinkTarget)
    ensures
        match r {
            LinkTarget::Manga(id) => names_after(url@, entry_prefix(), id@),
            LinkTarget::Chapter(id) => names_after(url@, chapter_prefix(), id@),
            LinkTarget::Unsupported => forall|id: Seq<char>|
                !names_after(url@, entry_prefix(), id) && !names_after(url@, chapter_prefix(), id),
        },
{
    let s = chars_of(url);
    let title = chars_of("https://mangadex.org/title/");
    let chapter = chars_of("https://mangadex.org/chapter/");
    proof {
        reveal_strlit("https://mangadex.org/title/");
        reveal_strlit("https://mangadex.org/chapter/");
    }
    if starts_with(&s, &title) {
        assert(!(s@.len() >= chapter@.len() && s@.subrange(0, chapter@.len() as int) == chapter@)) by {
            if s@.len() >= chapter@.len() && s@.subrange(0, chapter@.len() as int) == chapter@ {
                assert(s@[21] == chapter@[21]);
                assert(s@[21] == title@[21]);
            }
        }
        match segment_at(&s, title.len()) {
            Some(id) => LinkTarget::Manga(id),
            None => LinkTarget::Unsupported,
        }
    } else if starts_with(&s, &chapter) {
        match segment_at(&s, chapter.len()) {
            Some(id) => LinkTarget::Chapter(id),
            None => LinkTarget::Unsupported,
        }
    } else {
        LinkTarget::Unsupported
    }
}

/// Why a link could not be resolved.
#[derive(Clone, Copy, Debug, PartialEq, Eq, Structural)]
pub enum LinkError {
    /// The link has no known shape, or its chapter names no owning entry.
    Unsupported,
    /// A record fetched for the link could not be mapped.
    Malformed,
}

/// What a link resolves to.
#[derive(Debug)]
pub struct DeepLink {
    pub manga: Option<Manga>,
    pub chapter: Option<Chapter>,
}

/// The identifier of the entry a chapter belongs to: that of its first
/// relationship of kind `manga`.
pub fn owning_entry(chapter: &ChapterRecord) -> (r: Result<String, LinkError>)
    ensures
        match r {
            Ok(id) => exists|i: int|
                is_first_of_kind(chapter.relationships@, "manga"@, i)
                    && id@ == chapter.relationships@[i].id@,
            Err(e) => e == LinkError::Unsupported && !has_kind(chapter.relationships@, "manga"@),
        },
{
    match find_kind(&chapter.relationships, "manga") {
        Some(i) => Ok(chapter.relationships[i].id.clone()),
        None => Err(LinkError::Unsupported),
    }
}

/// The result for a link to an entry, from the entry's fetched record.
pub fn entry_link(entry: &MangaRecord, preferred: &Option<String>) -> (r: Result<DeepLink, LinkError>)
    ensures
        match r {
            Ok(d) => manga_well_formed(*entry) && d.chapter is None && d.manga is Some
                && d.manga->Some_0@ == manga_of(*entry, opt_view(*preferred)),
            Err(e) => e == LinkError::Malformed && !manga_well_formed(*entry),
        },
{
    match parse_manga(entry, preferred) {
        Ok(m) => Ok(DeepLink { manga: Some(m), chapter: None }),
        Err(_) => Err(LinkError::Malformed),
    }
}

/// The result for a link to a chapter, from the chapter's fetched record and
/// that of its owning entry.
pub fn chapter_link(chapter: &ChapterRecord, entry: &MangaRecord, preferred: &Option<String>) -> (r: Result<DeepLink, LinkError>)
    ensures
        match r {
            Ok(d) => manga_well_formed(*entry) && chapter_well_formed(*chapter) && d.manga is Some
                && d.chapter is Some && d.manga->Some_0@ == manga_of(*entry, opt_view(*preferred))
                && d.chapter->Some_0@ == chapter_of(*chapter),
            Err(e) => e == LinkError::Malformed && !(manga_well_formed(*entry) && chapter_well_formed(*chapter)),
        },
{
    let m = match parse_manga(entry, preferred) {
        Ok(m) => m,
        Err(_) => return Err(LinkError::Malformed),
    };
    match parse_chapter(chapter) {
        Ok(c) => Ok(DeepLink { manga: Some(m), chapter: Some(c) }),
        Err(_) => Err(LinkError::Malformed),
    }
}

} // verus!
