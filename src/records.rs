//! Mapping of raw catalog records into entries and chapters.
use vstd::prelude::*;
use vstd::string::StringExecFns;
use crate::query::is_named;
use crate::strings::chars_of;

verus! {

/// A reference embedded in a record: the kind of the related object, its
/// identifier, and the name (or file name) the API attached to it.
#[derive(Debug)]
pub struct Relationship {
    pub kind: String,
    pub id: String,
    pub name: Option<String>,
}

/// Whether `i` is the first relationship of kind `kind`.
pub open spec fn is_first_of_kind(rels: Seq<Relationship>, kind: Seq<char>, i: int) -> bool {
    &&& 0 <= i < rels.len()
    &&& rels[i].kind@ == kind
    &&& forall|j: int| 0 <= j < i ==> rels[j].kind@ != kind
}

/// Whether some relationship is of kind `kind`.
pub open spec fn has_kind(rels: Seq<Relationship>, kind: Seq<char>) -> bool {
    exists|i: int| 0 <= i < rels.len() && rels[i].kind@ == kind
}

/// The position of the first relationship of kind `kind`, if any.
pub fn find_kind(rels: &Vec<Relationship>, kind: &str) -> (r: Option<usize>)
    ensures
        match r {
            Some(i) => is_first_of_kind(rels@, kind@, i as int),
            None => !has_kind(rels@, kind@),
        },
{
    let mut i: usize = 0;
    while i < rels.len()
        invariant
            0 <= i <= rels@.len(),
            forall|j: int| 0 <= j < i ==> rels@[j].kind@ != kind@,
        decreases rels@.len() - i,
    {
        if is_named(&rels[i].kind, kind) {
            return Some(i);
        }
        i = i + 1;
    }
    None
}

/// The text views of a sequence of strings.
pub open spec fn views(v: Seq<String>) -> Seq<Seq<char>> {
    v.map_values(|s: String| s@)
}

/// The distinct items of `s`, each where it first occurs.
pub open spec fn dedup(s: Seq<Seq<char>>) -> Seq<Seq<char>>
    decreases s.len(),
{
    if s.len() == 0 {
        Seq::empty()
    } else {
        let d = dedup(s.drop_last());
        if d.contains(s.last()) {
            d
        } else {
            d.push(s.last())
        }
    }
}

/// Keeping the first of equal items leaves no duplicate and loses no item.
pub proof fn lemma_dedup(s: Seq<Seq<char>>)
    ensures
        dedup(s).no_duplicates(),
        dedup(s).to_set() == s.to_set(),
    decreases s.len(),
{
    if s.len() > 0 {
        lemma_dedup(s.drop_last());
        let d = dedup(s.drop_last());
        assert(s =~= s.drop_last().push(s.last()));
        d.lemma_push_to_set_commute(s.last());
        s.drop_last().lemma_push_to_set_commute(s.last());
        if d.contains(s.last()) {
            assert(d.to_set().insert(s.last()) =~= d.to_set());
        }
    } else {
        assert(dedup(s).to_set() =~= s.to_set());
    }
}

/// Whether `v` holds a string that reads `s`.
pub fn contains_str(v: &Vec<String>, s: &String) -> (r: bool)
    ensures
        r == views(v@).contains(s@),
{
    let mut i: usize = 0;
    while i < v.len()
        invariant
            0 <= i <= v@.len(),
            forall|j: int| 0 <= j < i ==> v@[j]@ != s@,
        decreases v@.len() - i,
    {
        if v[i] == *s {
            assert(views(v@)[i as int] == s@);
            return true;
        }
        i = i + 1;
    }
    assert forall|j: int| 0 <= j < views(v@).len() implies views(v@)[j] != s@ by {
        assert(views(v@)[j] == v@[j]@);
    }
    false
}

/// Appends `s` to `acc` unless `acc` already holds it.
pub fn push_distinct(acc: &mut Vec<String>, s: &String)
    ensures
        views(final(acc)@) == (if views(old(acc)@).contains(s@) {
            views(old(acc)@)
        } else {
            views(old(acc)@).push(s@)
        }),
{
    if !contains_str(acc, s) {
        acc.push(s.clone());
        assert(views(acc@) =~= views(old(acc)@).push(s@));
    }
}

/// The distinct strings of `v`, each where it first occurs.
pub fn dedup_strings(v: &Vec<String>) -> (r: Vec<String>)
    ensures
        views(r@) == dedup(views(v@)),
{
    let mut out: Vec<String> = Vec::new();
    let mut i: usize = 0;
    while i < v.len()
        invariant
            0 <= i <= v@.len(),
            views(out@) == dedup(views(v@.subrange(0, i as int))),
        decreases v@.len() - i,
    {
        push_distinct(&mut out, &v[i]);
        assert(views(v@.subrange(0, i + 1)).drop_last() =~= views(v@.subrange(0, i as int)));
        i = i + 1;
    }
    assert(v@.subrange(0, i as int) =~= v@);
    out
}

/// A text in one language.
#[derive(Debug)]
pub struct LocalizedText {
    pub lang: String,
    pub text: String,
}

/// Whether `i` is the first text in language `lang`.
pub open spec fn is_first_in(texts: Seq<LocalizedText>, lang: Seq<char>, i: int) -> bool {
    &&& 0 <= i < texts.len()
    &&& texts[i].lang@ == lang
    &&& forall|j: int| 0 <= j < i ==> texts[j].lang@ != lang
}

pub open spec fn has_lang(texts: Seq<LocalizedText>, lang: Seq<char>) -> bool {
    exists|i: int| 0 <= i < texts.len() && texts[i].lang@ == lang
}

/// The first text in language `lang`.
pub open spec fn text_in(texts: Seq<LocalizedText>, lang: Seq<char>) -> Seq<char> {
    texts[choose|i: int| is_first_in(texts, lang, i)].text@
}

/// Language used when the preferred one is missing.
pub open spec fn fallback_lang() -> Seq<char> {
    "en"@
}

/// The best text for a reader: in the preferred language, else in the
/// fallback language, else the first one given, else empty.
pub open spec fn localized(texts: Seq<LocalizedText>, preferred: Option<Seq<char>>) -> Seq<char> {
    if preferred is Some && has_lang(texts, preferred->Some_0) {
        text_in(texts, preferred->Some_0)
    } else if has_lang(texts, fallback_lang()) {
        text_in(texts, fallback_lang())
    } else if texts.len() > 0 {
        texts[0].text@
    } else {
        Seq::empty()
    }
}

fn find_lang(texts: &Vec<LocalizedText>, lang: &str) -> (r: Option<usize>)
    ensures
        match r {
            Some(i) => is_first_in(texts@, lang@, i as int)
                && text_in(texts@, lang@) == texts@[i as int].text@,
            None => !has_lang(texts@, lang@),
        },
{
    let mut i: usize = 0;
    while i < texts.len()
        invariant
            0 <= i <= texts@.len(),
            forall|j: int| 0 <= j < i ==> texts@[j].lang@ != lang@,
        decreases texts@.len() - i,
    {
        if is_named(&texts[i].lang, lang) {
            assert(is_first_in(texts@, lang@, i as int));
            let ghost c = choose|k: int| is_first_in(texts@, lang@, k);
            assert(c == i as int) by {
                if c < i {
                } else if c > i {
                    assert(texts@[i as int].lang@ != lang@);
                }
            }
            return Some(i);
        }
        i = i + 1;
    }
    None
}

/// The text that `localized` picks.
pub fn pick_localized(texts: &Vec<LocalizedText>, preferred: &Option<String>) -> (r: String)
    ensures
        r@ == localized(texts@, opt_view(*preferred)),
{
    if let Some(p) = preferred {
        if let Some(i) = find_lang(texts, p.as_str()) {
            return texts[i].text.clone();
        }
    }
    proof {
        reveal_strlit("en");
    }
    if let Some(i) = find_lang(texts, "en") {
        texts[i].text.clone()
    } else if texts.len() > 0 {
        texts[0].text.clone()
    } else {
        String::new()
    }
}

/// The text view of an optional string.
pub open spec fn opt_view(o: Option<String>) -> Option<Seq<char>> {
    match o {
        Some(s) => Some(s@),
        None => None,
    }
}

/// Lifecycle of a catalog entry.
#[derive(Clone, Copy, Debug, PartialEq, Eq, Structural)]
pub enum MangaStatus {
    Unknown,
    Ongoing,
    Completed,
    Cancelled,
    Hiatus,
}

/// Content maturity of a catalog entry.
#[derive(Clone, Copy, Debug, PartialEq, Eq, Structural)]
pub enum MangaContentRating {
    Safe,
    Suggestive,
    Nsfw,
}

/// Reading-direction hint of a catalog entry.
#[derive(Clone, Copy, Debug, PartialEq, Eq, Structural)]
pub enum MangaViewer {
    Rtl,
    Ltr,
    Vertical,
    Scroll,
}

/// Whether two characters are equal but for the case of an ASCII letter.
pub open spec fn same_letter(a: char, b: char) -> bool {
    ||| a == b
    ||| ('A' <= a <= 'Z' && (a as u32) + 32 == b as u32)
    ||| ('A' <= b <= 'Z' && (b as u32) + 32 == a as u32)
}

/// Whether two texts are equal but for the case of ASCII letters.
pub open spec fn eq_ignore_case(a: Seq<char>, b: Seq<char>) -> bool {
    a.len() == b.len() && forall|i: int| 0 <= i < a.len() ==> same_letter(a[i], b[i])
}

/// Compares two texts without regard to the case of ASCII letters.
pub fn equals_ignore_case(a: &str, b: &str) -> (r: bool)
    ensures
        r == eq_ignore_case(a@, b@),
{
    let x = chars_of(a);
    let y = chars_of(b);
    if x.len() != y.len() {
        return false;
    }
    let mut i: usize = 0;
    while i < x.len()
        invariant
            x@ == a@,
            y@ == b@,
            x@.len() == y@.len(),
            0 <= i <= x@.len(),
            forall|j: int| 0 <= j < i ==> same_letter(x@[j], y@[j]),
        decreases x@.len() - i,
    {
        let c = x[i];
        let d = y[i];
        let same = c == d || ('A' <= c && c <= 'Z' && (c as u32) + 32 == d as u32)
            || ('A' <= d && d <= 'Z' && (d as u32) + 32 == c as u32);
        if !same {
            return false;
        }
        i = i + 1;
    }
    true
}

/// The status a status string names, matched without regard to case.
pub open spec fn status_of(s: Option<Seq<char>>) -> MangaStatus {
    match s {
        Some(t) => if eq_ignore_case(t, "ongoing"@) {
            MangaStatus::Ongoing
        } else if eq_ignore_case(t, "completed"@) {
            MangaStatus::Completed
        } else if eq_ignore_case(t, "hiatus"@) {
            MangaStatus::Hiatus
        } else if eq_ignore_case(t, "cancelled"@) {
            MangaStatus::Cancelled
        } else {
            MangaStatus::Unknown
        },
        None => MangaStatus::Unknown,
    }
}

/// Maps a status string to a status; anything unknown is `Unknown`.
pub fn parse_status(s: &Option<String>) -> (r: MangaStatus)
    ensures
        r == status_of(opt_view(*s)),
{
    match s {
        Some(t) => {
            if equals_ignore_case(t.as_str(), "ongoing") {
                MangaStatus::Ongoing
            } else if equals_ignore_case(t.as_str(), "completed") {
                MangaStatus::Completed
            } else if equals_ignore_case(t.as_str(), "hiatus") {
                MangaStatus::Hiatus
            } else if equals_ignore_case(t.as_str(), "cancelled") {
                MangaStatus::Cancelled
            } else {
                MangaStatus::Unknown
            }
        },
        None => MangaStatus::Unknown,
    }
}

/// The maturity a content-rating string names.
pub open spec fn rating_of(s: Option<Seq<char>>) -> MangaContentRating {
    match s {
        Some(t) => if t == "pornographic"@ {
            MangaContentRating::Nsfw
        } else if t == "erotica"@ || t == "suggestive"@ {
            MangaContentRating::Suggestive
        } else {
            MangaContentRating::Safe
        },
        None => MangaContentRating::Safe,
    }
}

/// Maps a content-rating string to a maturity.
pub fn parse_rating(s: &Option<String>) -> (r: MangaContentRating)
    ensures
        r == rating_of(opt_view(*s)),
{
    match s {
        Some(t) => {
            if is_named(t, "pornographic") {
                MangaContentRating::Nsfw
            } else if is_named(t, "erotica") || is_named(t, "suggestive") {
                MangaContentRating::Suggestive
            } else {
                MangaContentRating::Safe
            }
        },
        None => MangaContentRating::Safe,
    }
}

/// The name carried by the first relationship of kind `kind`; empty when there
/// is none or it carries no name.
pub open spec fn related_name(rels: Seq<Relationship>, kind: Seq<char>) -> Seq<char> {
    if has_kind(rels, kind) {
        match rels[choose|i: int| is_first_of_kind(rels, kind, i)].name {
            Some(n) => n@,
            None => Seq::empty(),
        }
    } else {
        Seq::empty()
    }
}

/// The name of the first relationship of kind `kind`.
pub fn related(rels: &Vec<Relationship>, kind: &str) -> (r: String)
    ensures
        r@ == related_name(rels@, kind@),
{
    match find_kind(rels, kind) {
        Some(i) => {
            let ghost c = choose|k: int| is_first_of_kind(rels@, kind@, k);
            assert(c == i as int) by {
                if c > i {
                    assert(rels@[i as int].kind@ == kind@);
                }
            }
            match &rels[i].name {
                Some(n) => n.clone(),
                None => String::new(),
            }
        },
        None => String::new(),
    }
}

/// One raw catalog-entry record, as decoded from the API.
#[derive(Debug)]
pub struct MangaRecord {
    pub id: Option<String>,
    pub titles: Vec<LocalizedText>,
    pub descriptions: Vec<LocalizedText>,
    pub status: Option<String>,
    pub content_rating: Option<String>,
    pub tags: Vec<String>,
    pub relationships: Vec<Relationship>,
}

/// A catalog entry.
#[derive(Debug)]
pub struct Manga {
    pub id: String,
    pub title: String,
    pub author: String,
    pub artist: String,
    pub description: String,
    pub cover: String,
    pub url: String,
    pub categories: Vec<String>,
    pub status: MangaStatus,
    pub nsfw: MangaContentRating,
    pub viewer: MangaViewer,
}

/// A catalog entry as plain values.
pub struct MangaView {
    pub id: Seq<char>,
    pub title: Seq<char>,
    pub author: Seq<char>,
    pub artist: Seq<char>,
    pub description: Seq<char>,
    pub cover: Seq<char>,
    pub url: Seq<char>,
    pub categories: Seq<Seq<char>>,
    pub status: MangaStatus,
    pub nsfw: MangaContentRating,
    pub viewer: MangaViewer,
}

impl View for Manga {
    type V = MangaView;

    open spec fn view(&self) -> MangaView {
        MangaView {
            id: self.id@,
            title: self.title@,
            author: self.author@,
            artist: self.artist@,
            description: self.description@,
            cover: self.cover@,
            url: self.url@,
            categories: views(self.categories@),
            status: self.status,
            nsfw: self.nsfw,
            viewer: self.viewer,
        }
    }
}

/// A record can be mapped when it has an identifier and at least one title.
pub open spec fn manga_well_formed(r: MangaRecord) -> bool {
    r.id is Some && r.titles.len() > 0
}

/// The cover image of entry `id` whose cover file is `file`.
pub open spec fn cover_url(id: Seq<char>, rels: Seq<Relationship>) -> Seq<char> {
    let file = related_name(rels, "cover_art"@);
    if file.len() == 0 {
        Seq::empty()
    } else {
        "https://uploads.mangadex.org/covers/"@ + id + "/"@ + file
    }
}

/// The entry a well-formed record maps to.
pub open spec fn manga_of(r: MangaRecord, preferred: Option<Seq<char>>) -> MangaView {
    let id = r.id->Some_0@;
    MangaView {
        id: id,
        title: localized(r.titles@, preferred),
        author: related_name(r.relationships@, "author"@),
        artist: related_name(r.relationships@, "artist"@),
        description: localized(r.descriptions@, preferred),
        cover: cover_url(id, r.relationships@),
        url: "https://mangadex.org/title/"@ + id,
        categories: dedup(views(r.tags@)),
        status: status_of(opt_view(r.status)),
        nsfw: rating_of(opt_view(r.content_rating)),
        viewer: MangaViewer::Rtl,
    }
}

/// A record that could not be mapped.
#[derive(Clone, Copy, Debug, PartialEq, Eq, Structural)]
pub struct MalformedRecord;

/// Maps one record to a catalog entry, picking texts in the `preferred`
/// language where there are some; fails on a record without identifier or title.
pub fn parse_manga(rec: &MangaRecord, preferred: &Option<String>) -> (r: Result<Manga, MalformedRecord>)
    ensures
        match r {
            Ok(m) => manga_well_formed(*rec) && m@ == manga_of(*rec, opt_view(*preferred)),
            Err(_) => !manga_well_formed(*rec),
        },
{
    let id = match &rec.id {
        Some(id) => id,
        None => return Err(MalformedRecord),
    };
    if rec.titles.len() == 0 {
        return Err(MalformedRecord);
    }
    let file = related(&rec.relationships, "cover_art");
    let mut cover = String::new();
    if file.unicode_len() > 0 {
        cover = "https://uploads.mangadex.org/covers/".to_owned();
        cover.append(id.as_str());
        cover.append("/");
        cover.append(file.as_str());
    }
    let mut url = "https://mangadex.org/title/".to_owned();
    url.append(id.as_str());
    let m = Manga {
        id: id.clone(),
        title: pick_localized(&rec.titles, preferred),
        author: related(&rec.relationships, "author"),
        artist: related(&rec.relationships, "artist"),
        description: pick_localized(&rec.descriptions, preferred),
        cover,
        url,
        categories: dedup_strings(&rec.tags),
        status: parse_status(&rec.status),
        nsfw: parse_rating(&rec.content_rating),
        viewer: MangaViewer::Rtl,
    };
    assert(m@.cover == cover_url(id@, rec.relationships@));
    Ok(m)
}

/// The entries of the well-formed records, in order.
pub open spec fn mapped_mangas(recs: Seq<MangaRecord>, preferred: Option<Seq<char>>) -> Seq<MangaView>
    decreases recs.len(),
{
    if recs.len() == 0 {
        Seq::empty()
    } else if manga_well_formed(recs.last()) {
        mapped_mangas(recs.drop_last(), preferred).push(manga_of(recs.last(), preferred))
    } else {
        mapped_mangas(recs.drop_last(), preferred)
    }
}

/// The entry views of a sequence of entries.
pub open spec fn manga_views(v: Seq<Manga>) -> Seq<MangaView> {
    v.map_values(|m: Manga| m@)
}

/// Maps each record in turn, dropping those that cannot be mapped.
pub fn parse_manga_records(recs: &Vec<MangaRecord>, preferred: &Option<String>) -> (r: Vec<Manga>)
    ensures
        manga_views(r@) == mapped_mangas(recs@, opt_view(*preferred)),
{
    let mut out: Vec<Manga> = Vec::new();
    let mut i: usize = 0;
    while i < recs.len()
        invariant
            0 <= i <= recs@.len(),
            manga_views(out@) == mapped_mangas(recs@.subrange(0, i as int), opt_view(*preferred)),
        decreases recs@.len() - i,
    {
        let ghost before = out@;
        assert(recs@.subrange(0, i + 1).drop_last() =~= recs@.subrange(0, i as int));
        if let Ok(m) = parse_manga(&recs[i], preferred) {
            out.push(m);
            assert(manga_views(out@) =~= manga_views(before).push(m@));
        }
        i = i + 1;
    }
    assert(recs@.subrange(0, i as int) =~= recs@);
    out
}

/// Mapping a concatenation maps each part.
pub proof fn lemma_mapped_concat(a: Seq<MangaRecord>, b: Seq<MangaRecord>, p: Option<Seq<char>>)
    ensures
        mapped_mangas(a + b, p) == mapped_mangas(a, p) + mapped_mangas(b, p),
    decreases b.len(),
{
    if b.len() == 0 {
        assert(a + b =~= a);
        assert(mapped_mangas(a, p) + mapped_mangas(b, p) =~= mapped_mangas(a, p));
    } else {
        lemma_mapped_concat(a, b.drop_last(), p);
        assert((a + b).drop_last() =~= a + b.drop_last());
        assert((a + b).last() == b.last());
        if manga_well_formed(b.last()) {
            assert(mapped_mangas(a + b, p) =~= mapped_mangas(a, p) + mapped_mangas(b, p));
        }
    }
}

/// Every well-formed record maps to exactly one entry.
pub proof fn lemma_mapped_all(recs: Seq<MangaRecord>, p: Option<Seq<char>>)
    requires
        forall|i: int| 0 <= i < recs.len() ==> manga_well_formed(#[trigger] recs[i]),
    ensures
        mapped_mangas(recs, p).len() == recs.len(),
        forall|i: int| 0 <= i < recs.len() ==> #[trigger] mapped_mangas(recs, p)[i] == manga_of(recs[i], p),
    decreases recs.len(),
{
    if recs.len() > 0 {
        assert(manga_well_formed(recs[recs.len() - 1]));
        lemma_mapped_all(recs.drop_last(), p);
    }
}

/// One malformed record among well-formed ones costs that record alone: the
/// page still maps to one entry fewer than it has records.
pub proof fn lemma_one_malformed_record(recs: Seq<MangaRecord>, k: int, p: Option<Seq<char>>)
    requires
        0 <= k < recs.len(),
        !manga_well_formed(recs[k]),
        forall|i: int| 0 <= i < recs.len() && i != k ==> manga_well_formed(#[trigger] recs[i]),
    ensures
        mapped_mangas(recs, p).len() == recs.len() - 1,
{
    let a = recs.subrange(0, k);
    let b = recs.subrange(k + 1, recs.len() as int);
    let bad = seq![recs[k]];
    assert(recs =~= a + bad + b);
    assert forall|i: int| 0 <= i < a.len() implies manga_well_formed(#[trigger] a[i]) by {
        assert(a[i] == recs[i]);
    }
    assert forall|i: int| 0 <= i < b.len() implies manga_well_formed(#[trigger] b[i]) by {
        assert(b[i] == recs[k + 1 + i]);
    }
    lemma_mapped_all(a, p);
    lemma_mapped_all(b, p);
    lemma_mapped_concat(a + bad, b, p);
    lemma_mapped_concat(a, bad, p);
    assert(bad.drop_last() =~= Seq::<MangaRecord>::empty());
    assert(bad.last() == recs[k]);
    assert(mapped_mangas(bad.drop_last(), p) =~= Seq::<MangaView>::empty());
    assert(mapped_mangas(bad, p) =~= Seq::<MangaView>::empty());
}

} // verus!
