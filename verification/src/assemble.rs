//! Turning what was read from a page into lists of comics, chapters and
//! pages, and turning the filters of a request into the values a source uses.
use vstd::prelude::*;
use crate::model::{
    opt_views, seq_views, somes, Chapter, ChapterDraft, ChapterNode, ChapterNodeView, ChapterView,
    DraftView, ImageNode, ImageNodeView, ListNode, ListNodeView, Manga, MangaStatus, MangaView, Page,
    PageView,
};
use crate::text::{contains, contains_seq, views};

verus! {

// ---------------------------------------------------------------------------
// Listing entries
// ---------------------------------------------------------------------------

/// How a source turns one listing entry into a comic.
pub trait EntryRule {
    spec fn entry_spec(&self, n: ListNodeView) -> MangaView;

    fn entry(&self, n: &ListNode) -> (m: Manga)
        ensures
            m@ == self.entry_spec(n@),
    ;
}

/// The comics of a listing: one per entry that could be read, in page order.
pub open spec fn entries_spec<R: EntryRule>(rule: &R, nodes: Seq<Option<ListNodeView>>) -> Seq<MangaView> {
    somes(nodes).map_values(|n: ListNodeView| rule.entry_spec(n))
}

/// Applies `rule` to every entry that could be read, keeping their order.
pub fn collect_entries<R: EntryRule>(rule: &R, nodes: &Vec<Option<ListNode>>) -> (r: Vec<Manga>)
    ensures
        seq_views(r@) == entries_spec(rule, opt_views(nodes@)),
{
    let mut out: Vec<Manga> = Vec::new();
    let mut i: usize = 0;
    while i < nodes.len()
        invariant
            i <= nodes@.len(),
            seq_views(out@) == entries_spec(rule, opt_views(nodes@.take(i as int))),
        decreases nodes@.len() - i,
    {
        let ghost before = seq_views(out@);
        assert(opt_views(nodes@.take(i + 1)).drop_last() =~= opt_views(nodes@.take(i as int)));
        match &nodes[i] {
            Some(n) => {
                let m = rule.entry(n);
                out.push(m);
                assert(seq_views(out@) =~= before.push(m@));
                assert(entries_spec(rule, opt_views(nodes@.take(i + 1))) =~= before.push(rule.entry_spec(n@)));
            },
            None => {
                assert(entries_spec(rule, opt_views(nodes@.take(i + 1))) =~= before);
            },
        }
        i = i + 1;
    }
    assert(nodes@.take(nodes@.len() as int) =~= nodes@);
    out
}

// ---------------------------------------------------------------------------
// Chapters
// ---------------------------------------------------------------------------

/// How a source turns one chapter entry into a chapter (or skips it).
pub trait ChapterRule {
    spec fn draft_spec(&self, n: ChapterNodeView) -> Option<DraftView>;

    fn draft(&self, n: &ChapterNode) -> (d: Option<ChapterDraft>)
        ensures
            d matches Some(x) ==> self.draft_spec(n@) == Some(x@),
            d is None ==> self.draft_spec(n@) is None,
    ;
}

/// What `rule` makes of each entry (an entry that could not be read gives
/// nothing).
pub open spec fn drafts_spec<R: ChapterRule>(rule: &R, nodes: Seq<Option<ChapterNodeView>>) -> Seq<Option<DraftView>> {
    nodes.map_values(|o: Option<ChapterNodeView>| match o {
        Some(n) => rule.draft_spec(n),
        None => None,
    })
}

/// The chapter made from a draft at position `number - 1`.
pub open spec fn chapter_of(d: DraftView, number: nat) -> ChapterView {
    ChapterView { id: d.id, title: d.title, number, scanlator: d.scanlator, url: d.url }
}

/// The chapters of the drafts in order, each numbered by its position
/// (counting from 1, and counting the entries that gave nothing).
pub open spec fn numbered(drafts: Seq<Option<DraftView>>) -> Seq<ChapterView>
    decreases drafts.len(),
{
    if drafts.len() == 0 {
        Seq::empty()
    } else {
        let rest = numbered(drafts.drop_last());
        match drafts.last() {
            Some(d) => rest.push(chapter_of(d, drafts.len())),
            None => rest,
        }
    }
}

/// The numbered chapters, last position first.
pub open spec fn newest_first(drafts: Seq<Option<DraftView>>) -> Seq<ChapterView> {
    numbered(drafts).reverse()
}

proof fn lemma_reverse_push<A>(s: Seq<A>, x: A)
    ensures
        s.push(x).reverse() =~= seq![x] + s.reverse(),
{
    assert forall|i: int| 0 <= i < s.len() + 1 implies #[trigger] s.push(x).reverse()[i] == (seq![x] + s.reverse())[i] by {
        if i > 0 {
            assert(s.reverse()[i - 1] == s[s.len() - 1 - (i - 1)]);
        }
    }
}

/// Applies `rule` to every entry that could be read.
pub fn collect_drafts<R: ChapterRule>(rule: &R, nodes: &Vec<Option<ChapterNode>>) -> (r: Vec<Option<ChapterDraft>>)
    ensures
        opt_views(r@) == drafts_spec(rule, opt_views(nodes@)),
{
    let mut out: Vec<Option<ChapterDraft>> = Vec::new();
    let mut i: usize = 0;
    while i < nodes.len()
        invariant
            i <= nodes@.len(),
            out@.len() == i,
            opt_views(out@) == drafts_spec(rule, opt_views(nodes@.take(i as int))),
        decreases nodes@.len() - i,
    {
        let ghost before = opt_views(out@);
        let d = match &nodes[i] {
            Some(n) => rule.draft(n),
            None => None,
        };
        out.push(d);
        proof {
            let target = drafts_spec(rule, opt_views(nodes@.take(i + 1)));
            assert(opt_views(nodes@.take(i + 1))[i as int] == opt_views(nodes@)[i as int]);
            assert(opt_views(out@)[i as int] == target[i as int]);
            assert forall|k: int| 0 <= k < i implies #[trigger] opt_views(out@)[k] == target[k] by {
                assert(opt_views(out@)[k] == before[k]);
                assert(opt_views(nodes@.take(i + 1))[k] == opt_views(nodes@.take(i as int))[k]);
            }
            assert(opt_views(out@) =~= target);
        }
        i = i + 1;
    }
    assert(nodes@.take(nodes@.len() as int) =~= nodes@);
    out
}

/// Numbers the drafts by position (from 1) and lists them last position
/// first.
pub fn number_newest_first(drafts: &Vec<Option<ChapterDraft>>) -> (r: Vec<Chapter>)
    ensures
        seq_views(r@) == newest_first(opt_views(drafts@)),
{
    let mut out: Vec<Chapter> = Vec::new();
    let mut p: usize = drafts.len();
    assert(opt_views(drafts@).take(p as int) =~= opt_views(drafts@));
    while p > 0
        invariant
            p <= drafts@.len(),
            newest_first(opt_views(drafts@)) == seq_views(out@) + numbered(opt_views(drafts@).take(p as int)).reverse(),
        decreases p,
    {
        let ghost before = seq_views(out@);
        let ghost prefix = opt_views(drafts@).take(p as int);
        assert(prefix.drop_last() =~= opt_views(drafts@).take(p - 1));
        match &drafts[p - 1] {
            Some(d) => {
                let c = Chapter {
                    id: d.id.clone(),
                    title: d.title.clone(),
                    number: p,
                    scanlator: d.scanlator.clone(),
                    url: d.url.clone(),
                };
                out.push(c);
                proof {
                    let rest = numbered(opt_views(drafts@).take(p - 1));
                    assert(c@ == chapter_of(d@, p as nat));
                    lemma_reverse_push(rest, c@);
                    assert(seq_views(out@) =~= before.push(c@));
                    assert(before + numbered(prefix).reverse() =~= seq_views(out@) + rest.reverse());
                }
            },
            None => {},
        }
        p = p - 1;
    }
    assert(numbered(opt_views(drafts@).take(0)) =~= Seq::<ChapterView>::empty());
    assert(seq_views(out@) + Seq::<ChapterView>::empty().reverse() =~= seq_views(out@));
    out
}

/// The drafts in the opposite order.
pub fn reversed_drafts(drafts: Vec<Option<ChapterDraft>>) -> (r: Vec<Option<ChapterDraft>>)
    ensures
        opt_views(r@) == opt_views(drafts@).reverse(),
{
    let mut src = drafts;
    let ghost orig = opt_views(src@);
    let mut out: Vec<Option<ChapterDraft>> = Vec::new();
    while src.len() > 0
        invariant
            orig.len() == out@.len() + src@.len(),
            opt_views(src@) == orig.take(src@.len() as int),
            forall|k: int| 0 <= k < out@.len() ==> #[trigger] opt_views(out@)[k] == orig[orig.len() - 1 - k],
        decreases src@.len(),
    {
        let ghost n = src@.len();
        let ghost last_v = opt_views(src@)[n - 1];
        assert(last_v == orig[n - 1]);
        let x = src.pop().unwrap();
        assert(opt_views(src@) =~= orig.take(n - 1));
        let ghost before = out@;
        out.push(x);
        assert(opt_views(out@)[out@.len() - 1] == orig[n - 1]);
        assert forall|k: int| 0 <= k < out@.len() implies #[trigger] opt_views(out@)[k] == orig[orig.len() - 1 - k] by {
            if k < before.len() {
                assert(opt_views(out@)[k] == opt_views(before)[k]);
            }
        }
    }
    assert(opt_views(out@) =~= orig.reverse());
    out
}

// ---------------------------------------------------------------------------
// Pages
// ---------------------------------------------------------------------------

/// How a source finds the address of one image.
pub trait PageRule {
    spec fn url_spec(&self, n: ImageNodeView) -> Seq<char>;

    fn url(&self, n: &ImageNode) -> (u: String)
        ensures
            u@ == self.url_spec(n@),
    ;
}

/// The pages of the given addresses, each indexed by its position (counting
/// the images that could not be read).
pub open spec fn paged(urls: Seq<Option<Seq<char>>>) -> Seq<PageView>
    decreases urls.len(),
{
    if urls.len() == 0 {
        Seq::empty()
    } else {
        let rest = paged(urls.drop_last());
        match urls.last() {
            Some(u) => rest.push(PageView { index: (urls.len() - 1) as nat, url: u }),
            None => rest,
        }
    }
}

/// The address `rule` finds for each image that could be read.
pub open spec fn urls_spec<R: PageRule>(rule: &R, nodes: Seq<Option<ImageNodeView>>) -> Seq<Option<Seq<char>>> {
    nodes.map_values(|o: Option<ImageNodeView>| match o {
        Some(n) => Some(rule.url_spec(n)),
        None => None,
    })
}

/// One page per image that could be read, indexed by the image's position.
pub fn collect_pages<R: PageRule>(rule: &R, nodes: &Vec<Option<ImageNode>>) -> (r: Vec<Page>)
    ensures
        seq_views(r@) == paged(urls_spec(rule, opt_views(nodes@))),
{
    let mut out: Vec<Page> = Vec::new();
    let mut i: usize = 0;
    while i < nodes.len()
        invariant
            i <= nodes@.len(),
            seq_views(out@) == paged(urls_spec(rule, opt_views(nodes@.take(i as int)))),
        decreases nodes@.len() - i,
    {
        let ghost before = seq_views(out@);
        assert(urls_spec(rule, opt_views(nodes@.take(i + 1))).drop_last() =~= urls_spec(rule, opt_views(nodes@.take(i as int))));
        match &nodes[i] {
            Some(n) => {
                let u = rule.url(n);
                let pg = Page { index: i, url: u };
                out.push(pg);
                assert(seq_views(out@) =~= before.push(pg@));
            },
            None => {},
        }
        i = i + 1;
    }
    assert(nodes@.take(nodes@.len() as int) =~= nodes@);
    out
}

/// The pages of a list of addresses: one per address, indexed by position.
pub open spec fn pages_of(urls: Seq<Seq<char>>) -> Seq<PageView> {
    Seq::new(urls.len(), |i: int| PageView { index: i as nat, url: urls[i] })
}

/// One page per address, indexed by position.
pub fn pages_from_urls(urls: Vec<String>) -> (r: Vec<Page>)
    ensures
        seq_views(r@) == pages_of(views(urls@)),
{
    let mut out: Vec<Page> = Vec::new();
    let mut i: usize = 0;
    while i < urls.len()
        invariant
            i <= urls@.len(),
            out@.len() == i,
            seq_views(out@) == pages_of(views(urls@)).take(i as int),
        decreases urls@.len() - i,
    {
        let pg = Page { index: i, url: urls[i].clone() };
        assert(pg@ == pages_of(views(urls@))[i as int]);
        out.push(pg);
        assert(seq_views(out@) =~= pages_of(views(urls@)).take(i + 1));
        i = i + 1;
    }
    assert(pages_of(views(urls@)).take(urls@.len() as int) =~= pages_of(views(urls@)));
    out
}

// ---------------------------------------------------------------------------
// Status
// ---------------------------------------------------------------------------

/// Completed if `text` mentions `done`, else ongoing if it mentions `going`,
/// else unknown.
pub open spec fn status_by(text: Seq<char>, done: Seq<char>, going: Seq<char>) -> MangaStatus {
    if contains_seq(text, done) {
        MangaStatus::Completed
    } else if contains_seq(text, going) {
        MangaStatus::Ongoing
    } else {
        MangaStatus::Unknown
    }
}

/// The status `text` announces, going by the two markers.
pub fn status_by_markers(text: &str, done: &str, going: &str) -> (r: MangaStatus)
    ensures
        r == status_by(text@, done@, going@),
{
    if contains(text, done) {
        MangaStatus::Completed
    } else if contains(text, going) {
        MangaStatus::Ongoing
    } else {
        MangaStatus::Unknown
    }
}

} // verus!
