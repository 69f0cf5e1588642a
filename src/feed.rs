//! The chapter feed of one entry, walked page by page.
use vstd::prelude::*;
use vstd::string::StringExecFns;
use crate::text::{decimal_nat, push_decimal};
use crate::query::{repeated_param, push_repeated};
use crate::records::views;
use crate::chapters::{Chapter, ChapterRecord, chapter_views, mapped_chapters, push_chapter_records};

verus! {

/// Records the feed returns per request.
pub const FEED_PAGE_SIZE: u64 = 500;

/// The pieces of `s` between the occurrences of `sep`, empty ones included.
pub open spec fn split_on(s: Seq<char>, sep: char) -> Seq<Seq<char>>
    decreases s.len(),
{
    if s.len() == 0 {
        seq![Seq::empty()]
    } else {
        let p = split_on(s.drop_last(), sep);
        if s.last() == sep {
            p.push(Seq::empty())
        } else {
            p.update(p.len() - 1, p.last().push(s.last()))
        }
    }
}

/// `s` without its leading and trailing whitespace.
pub uninterp spec fn trimmed(s: Seq<char>) -> Seq<char>;

/// Relies on `str::split`: the pieces of `s` between the occurrences of `sep`.
#[verifier::external_body]
fn split(s: &str, sep: char) -> (r: Vec<String>)
    ensures
        views(r@) == split_on(s@, sep),
{
    s.split(sep).map(|p| p.to_owned()).collect()
}

/// Relies on `str::trim`: the text without leading and trailing whitespace.
#[verifier::external_body]
fn trim(s: &str) -> (r: String)
    ensures
        r@ == trimmed(s@),
{
    s.trim().to_owned()
}

/// One `key` + piece for each non-empty trimmed piece of `pieces`.
pub open spec fn listed_params(key: Seq<char>, pieces: Seq<Seq<char>>) -> Seq<char>
    decreases pieces.len(),
{
    if pieces.len() == 0 {
        Seq::empty()
    } else {
        listed_params(key, pieces.drop_last()) + (if trimmed(pieces.last()).len() > 0 {
            key + trimmed(pieces.last())
        } else {
            Seq::empty()
        })
    }
}

/// Appends one `key` + item for each non-empty, trimmed item of the
/// comma-separated `list`.
pub fn push_listed(out: &mut String, key: &str, list: &str)
    ensures
        final(out)@ == old(out)@ + listed_params(key@, split_on(list@, ',')),
{
    let pieces = split(list, ',');
    let mut i: usize = 0;
    while i < pieces.len()
        invariant
            0 <= i <= pieces@.len(),
            out@ == old(out)@ + listed_params(key@, views(pieces@.subrange(0, i as int))),
        decreases pieces@.len() - i,
    {
        let t = trim(pieces[i].as_str());
        if t.unicode_len() > 0 {
            out.append(key);
            out.append(t.as_str());
        }
        assert(views(pieces@.subrange(0, i + 1)).drop_last() =~= views(pieces@.subrange(0, i as int)));
        i = i + 1;
        assert(out@ =~= old(out)@ + listed_params(key@, views(pieces@.subrange(0, i as int))));
    }
    assert(pieces@.subrange(0, i as int) =~= pieces@);
}

/// The blocked-list parameters of an optional comma-separated list.
pub open spec fn blocked_params(key: Seq<char>, list: Option<String>) -> Seq<char> {
    match list {
        Some(l) => listed_params(key, split_on(l@, ',')),
        None => Seq::empty(),
    }
}

/// The first request of the chapter feed of entry `id`: newest volume and
/// chapter first, in the preferred `languages`, without the blocked scanlation
/// groups and uploaders (each a comma-separated list).
pub fn chapter_feed_url(
    id: &str,
    languages: &Vec<String>,
    blocked_groups: &Option<String>,
    blocked_uploaders: &Option<String>,
) -> (r: String)
    ensures
        r@ == "https://api.mangadex.org/manga/"@ + id@
            + "/feed?order[volume]=desc&order[chapter]=desc&limit=500&contentRating[]=pornographic&contentRating[]=erotica&contentRating[]=suggestive&contentRating[]=safe&includes[]=scanlation_group"@
            + repeated_param("&translatedLanguage[]="@, languages@)
            + blocked_params("&excludedGroups[]="@, *blocked_groups)
            + blocked_params("&excludedUploaders[]="@, *blocked_uploaders),
{
    let mut url = "https://api.mangadex.org/manga/".to_owned();
    url.append(id);
    url.append("/feed?order[volume]=desc&order[chapter]=desc&limit=500&contentRating[]=pornographic&contentRating[]=erotica&contentRating[]=suggestive&contentRating[]=safe&includes[]=scanlation_group");
    push_repeated(&mut url, "&translatedLanguage[]=", languages);
    if let Some(g) = blocked_groups {
        push_listed(&mut url, "&excludedGroups[]=", g.as_str());
    }
    if let Some(u) = blocked_uploaders {
        push_listed(&mut url, "&excludedUploaders[]=", u.as_str());
    }
    assert(url@ =~= "https://api.mangadex.org/manga/"@ + id@
            + "/feed?order[volume]=desc&order[chapter]=desc&limit=500&contentRating[]=pornographic&contentRating[]=erotica&contentRating[]=suggestive&contentRating[]=safe&includes[]=scanlation_group"@
            + repeated_param("&translatedLanguage[]="@, languages@)
            + blocked_params("&excludedGroups[]="@, *blocked_groups)
            + blocked_params("&excludedUploaders[]="@, *blocked_uploaders));
    url
}

/// The request for the feed page at `offset`: the first page carries no offset.
pub fn feed_page_url(feed_url: &String, offset: u64) -> (r: String)
    ensures
        r@ == (if offset == 0 {
            feed_url@
        } else {
            feed_url@ + "&offset="@ + decimal_nat(offset as nat)
        }),
{
    let mut url = feed_url.clone();
    if offset != 0 {
        url.append("&offset=");
        push_decimal(&mut url, offset);
    }
    url
}

/// Where a walk of the feed stands: the offset of the next page, and the
/// total that the first page reported.
#[derive(Debug)]
pub struct FeedPager {
    offset: u64,
    total: Option<u64>,
}

impl FeedPager {
    pub closed spec fn spec_offset(&self) -> nat {
        self.offset as nat
    }

    pub closed spec fn spec_total(&self) -> Option<nat> {
        match self.total {
            Some(t) => Some(t as nat),
            None => None,
        }
    }

    /// Offsets step by the page size; the total is learnt with the first page.
    pub closed spec fn wf(&self) -> bool {
        &&& self.offset % FEED_PAGE_SIZE == 0
        &&& self.total is None <==> self.offset == 0
        &&& self.total is Some ==> self.total->Some_0 <= i64::MAX
        &&& self.offset <= i64::MAX + FEED_PAGE_SIZE
    }

    /// The offset the walk asks for next, if any.
    pub open spec fn spec_next(&self) -> Option<nat> {
        match self.spec_total() {
            None => Some(0),
            Some(t) => if self.spec_offset() < t {
                Some(self.spec_offset())
            } else {
                None
            },
        }
    }

    /// The offsets still to fetch, once the total is known.
    pub open spec fn pending(&self) -> Seq<int> {
        match self.spec_total() {
            Some(t) => offsets_from(self.spec_offset() as int, t as int),
            None => Seq::empty(),
        }
    }

    /// A walk that has fetched nothing yet.
    pub fn new() -> (r: FeedPager)
        ensures
            r.wf(),
            r.spec_offset() == 0,
            r.spec_total() is None,
    {
        FeedPager { offset: 0, total: None }
    }

    /// The offset of the page to fetch next; `None` once the walk is done.
    pub fn next_offset(&self) -> (r: Option<u64>)
        requires
            self.wf(),
        ensures
            match r {
                Some(o) => self.spec_next() == Some(o as nat),
                None => self.spec_next() is None,
            },
            self.spec_total() is Some ==> (r is Some <==> self.pending().len() > 0),
            self.spec_total() is Some && r is Some ==> r->Some_0 == self.pending()[0],
    {
        match self.total {
            None => Some(0),
            Some(t) => if self.offset < t {
                Some(self.offset)
            } else {
                None
            },
        }
    }

    /// Records that the page at the next offset came back reporting
    /// `reported_total` records; only the first page's total is kept.
    pub fn page_fetched(&mut self, reported_total: i64)
        requires
            old(self).wf(),
            old(self).spec_next() is Some,
        ensures
            final(self).wf(),
            final(self).spec_offset() == old(self).spec_offset() + FEED_PAGE_SIZE,
            final(self).spec_total() == (match old(self).spec_total() {
                Some(t) => Some(t),
                None => Some(if reported_total < 0 { 0nat } else { reported_total as nat }),
            }),
            old(self).spec_total() is None ==> final(self).pending() == feed_offsets(
                final(self).spec_total()->Some_0,
            ).drop_first(),
            old(self).spec_total() is Some ==> final(self).pending() == old(self).pending().drop_first(),
    {
        proof {
            if old(self).spec_total() is Some {
                let t = old(self).spec_total()->Some_0 as int;
                let o = old(self).spec_offset() as int;
                assert(offsets_from(o, t) == seq![o] + offsets_from(o + FEED_PAGE_SIZE, t));
                assert((seq![o] + offsets_from(o + FEED_PAGE_SIZE, t)).drop_first() =~= offsets_from(o + FEED_PAGE_SIZE, t));
            }
        }
        if self.total.is_none() {
            self.total = Some(if reported_total < 0 { 0 } else { reported_total as u64 });
        }
        self.offset = self.offset + FEED_PAGE_SIZE;
    }
}

/// The offsets asked for from `offset` on while they stay under `total`.
pub open spec fn offsets_from(offset: int, total: int) -> Seq<int>
    decreases (if offset < total {
        total - offset
    } else {
        0
    }),
{
    if offset < total {
        seq![offset] + offsets_from(offset + FEED_PAGE_SIZE, total)
    } else {
        Seq::empty()
    }
}

/// The offsets a walk fetches when the first page reports `total`.
pub open spec fn feed_offsets(total: nat) -> Seq<int> {
    seq![0int] + offsets_from(FEED_PAGE_SIZE as int, total as int)
}

/// Number of requests a walk makes for `total` records: one, or as many
/// pages as it takes to cover them.
pub open spec fn feed_fetch_count(total: nat) -> nat {
    if total <= FEED_PAGE_SIZE {
        1
    } else {
        ((total + FEED_PAGE_SIZE - 1) / FEED_PAGE_SIZE as int) as nat
    }
}

proof fn lemma_offsets_from(k: int, total: int)
    requires
        k >= 0,
    ensures
        offsets_from(k * FEED_PAGE_SIZE, total).len() == (if k * FEED_PAGE_SIZE < total {
            ((total + FEED_PAGE_SIZE - 1) / FEED_PAGE_SIZE as int) - k
        } else {
            0
        }),
        forall|j: int|
            0 <= j < offsets_from(k * FEED_PAGE_SIZE, total).len() ==> #[trigger] offsets_from(
                k * FEED_PAGE_SIZE,
                total,
            )[j] == (k + j) * FEED_PAGE_SIZE,
    decreases (if k * FEED_PAGE_SIZE < total {
        total - k * FEED_PAGE_SIZE
    } else {
        0
    }),
{
    if k * FEED_PAGE_SIZE < total {
        assert((k + 1) * FEED_PAGE_SIZE == k * FEED_PAGE_SIZE + FEED_PAGE_SIZE);
        lemma_offsets_from(k + 1, total);
        let rest = offsets_from((k + 1) * FEED_PAGE_SIZE, total);
        assert(offsets_from(k * FEED_PAGE_SIZE, total) == seq![k * FEED_PAGE_SIZE] + rest);
        if (k + 1) * FEED_PAGE_SIZE < total {
            assert(((total + 499) / 500) - (k + 1) + 1 == ((total + 499) / 500) - k);
        } else {
            assert((total + 499) / 500 == k + 1);
        }
        assert forall|j: int| 0 <= j < offsets_from(k * FEED_PAGE_SIZE, total).len() implies
            #[trigger] offsets_from(k * FEED_PAGE_SIZE, total)[j] == (k + j) * FEED_PAGE_SIZE by {
            if j > 0 {
                assert(offsets_from(k * FEED_PAGE_SIZE, total)[j] == rest[j - 1]);
                assert((k + 1 + (j - 1)) == k + j);
            }
        }
    }
}

/// Walking the feed fetches `feed_fetch_count(total)` pages, at offsets
/// 0, 500, 1000, ... in turn: no offset twice, and enough pages to cover every
/// record the first page reported.
pub proof fn lemma_feed_pagination(total: nat)
    ensures
        feed_offsets(total).len() == feed_fetch_count(total),
        forall|j: int|
            0 <= j < feed_offsets(total).len() ==> #[trigger] feed_offsets(total)[j] == j * FEED_PAGE_SIZE,
        feed_offsets(total).no_duplicates(),
        feed_offsets(total).len() * FEED_PAGE_SIZE >= total,
{
    lemma_offsets_from(1, total as int);
    let s = feed_offsets(total);
    let rest = offsets_from(FEED_PAGE_SIZE as int, total as int);
    assert forall|j: int| 0 <= j < s.len() implies #[trigger] s[j] == j * FEED_PAGE_SIZE by {
        if j > 0 {
            assert(s[j] == rest[j - 1]);
        }
    }
    assert forall|i: int, j: int| 0 <= i < s.len() && 0 <= j < s.len() && i != j implies s[i] != s[j] by {
        assert(s[i] == i * FEED_PAGE_SIZE);
        assert(s[j] == j * FEED_PAGE_SIZE);
    }
    if total > FEED_PAGE_SIZE {
        assert(((total + 499) / 500) * 500 >= total) by (nonlinear_arith)
            requires total > 500;
    }
}

/// The chapters of one entry gathered across the pages of its feed.
#[derive(Debug)]
pub struct ChapterFeed {
    pub pager: FeedPager,
    pub chapters: Vec<Chapter>,
}

impl ChapterFeed {
    /// A feed of which nothing has been fetched.
    pub fn new() -> (r: ChapterFeed)
        ensures
            r.pager.wf(),
            r.pager.spec_offset() == 0,
            r.pager.spec_total() is None,
            r.pager.spec_next() == Some(0nat),
            r.chapters@.len() == 0,
    {
        ChapterFeed { pager: FeedPager::new(), chapters: Vec::new() }
    }

    /// Takes in the page fetched at the pager's next offset: its reported
    /// total and its records, of which the well-formed are kept in order.
    pub fn add_page(&mut self, reported_total: i64, records: &Vec<ChapterRecord>)
        requires
            old(self).pager.wf(),
            old(self).pager.spec_next() is Some,
        ensures
            final(self).pager.wf(),
            final(self).pager.spec_offset() == old(self).pager.spec_offset() + FEED_PAGE_SIZE,
            final(self).pager.spec_total() == (match old(self).pager.spec_total() {
                Some(t) => Some(t),
                None => Some(if reported_total < 0 { 0nat } else { reported_total as nat }),
            }),
            chapter_views(final(self).chapters@) == chapter_views(old(self).chapters@) + mapped_chapters(records@),
    {
        self.pager.page_fetched(reported_total);
        push_chapter_records(&mut self.chapters, records);
    }
}

} // verus!
