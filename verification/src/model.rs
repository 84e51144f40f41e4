//! The values the sources hand back: comics, chapters, pages, and the
//! abstract views their contracts speak of.
use vstd::prelude::*;
use crate::text::views;

verus! {

/// Publication status of a comic.
#[derive(Clone, Copy, Debug, PartialEq, Eq, Structural)]
pub enum MangaStatus {
    Unknown,
    Ongoing,
    Completed,
    Cancelled,
    Hiatus,
}

/// Content rating of a comic.
#[derive(Clone, Copy, Debug, PartialEq, Eq, Structural)]
pub enum ContentRating {
    Safe,
    Suggestive,
    Nsfw,
}

/// How a reader should lay out the pages of a comic.
#[derive(Clone, Copy, Debug, PartialEq, Eq, Structural)]
pub enum Viewer {
    Default,
    Rtl,
    Ltr,
    Vertical,
    Scroll,
}

/// A comic, as listed or as described on its detail page.
#[derive(Clone, Debug)]
pub struct Manga {
    pub id: String,
    pub cover: String,
    pub title: String,
    pub author: String,
    pub artist: String,
    pub description: String,
    pub url: String,
    pub categories: Vec<String>,
    pub status: MangaStatus,
    pub nsfw: ContentRating,
    pub viewer: Viewer,
}

/// The abstract contents of a [`Manga`].
#[verifier::ext_equal]
pub struct MangaView {
    pub id: Seq<char>,
    pub cover: Seq<char>,
    pub title: Seq<char>,
    pub author: Seq<char>,
    pub artist: Seq<char>,
    pub description: Seq<char>,
    pub url: Seq<char>,
    pub categories: Seq<Seq<char>>,
    pub status: MangaStatus,
    pub nsfw: ContentRating,
    pub viewer: Viewer,
}

impl View for Manga {
    type V = MangaView;

    open spec fn view(&self) -> MangaView {
        MangaView {
            id: self.id@,
            cover: self.cover@,
            title: self.title@,
            author: self.author@,
            artist: self.artist@,
            description: self.description@,
            url: self.url@,
            categories: views(self.categories@),
            status: self.status,
            nsfw: self.nsfw,
            viewer: self.viewer,
        }
    }
}

/// A comic as it appears in a listing: only id, cover and title are known;
/// everything else has its default value.
pub open spec fn listed(id: Seq<char>, cover: Seq<char>, title: Seq<char>) -> MangaView {
    MangaView {
        id,
        cover,
        title,
        author: Seq::empty(),
        artist: Seq::empty(),
        description: Seq::empty(),
        url: Seq::empty(),
        categories: Seq::empty(),
        status: MangaStatus::Unknown,
        nsfw: ContentRating::Safe,
        viewer: Viewer::Default,
    }
}

/// Builds a listing entry: the given id, cover and title, defaults elsewhere.
pub fn listed_manga(id: String, cover: String, title: String) -> (m: Manga)
    ensures
        m@ == listed(id@, cover@, title@),
{
    let m = Manga {
        id,
        cover,
        title,
        author: String::new(),
        artist: String::new(),
        description: String::new(),
        url: String::new(),
        categories: Vec::new(),
        status: MangaStatus::Unknown,
        nsfw: ContentRating::Safe,
        viewer: Viewer::Default,
    };
    assert(views(m.categories@) =~= Seq::<Seq<char>>::empty());
    m
}

/// One page of a listing or a search.
#[derive(Clone, Debug)]
pub struct MangaPageResult {
    pub manga: Vec<Manga>,
    pub has_more: bool,
}

/// A chapter of a comic. `number` is its chapter number (1 for the first).
#[derive(Clone, Debug)]
pub struct Chapter {
    pub id: String,
    pub title: String,
    pub number: usize,
    pub scanlator: String,
    pub url: String,
}

/// The abstract contents of a [`Chapter`].
#[verifier::ext_equal]
pub struct ChapterView {
    pub id: Seq<char>,
    pub title: Seq<char>,
    pub number: nat,
    pub scanlator: Seq<char>,
    pub url: Seq<char>,
}

impl View for Chapter {
    type V = ChapterView;

    open spec fn view(&self) -> ChapterView {
        ChapterView {
            id: self.id@,
            title: self.title@,
            number: self.number as nat,
            scanlator: self.scanlator@,
            url: self.url@,
        }
    }
}

/// A chapter before it is numbered.
#[derive(Clone, Debug)]
pub struct ChapterDraft {
    pub id: String,
    pub title: String,
    pub scanlator: String,
    pub url: String,
}

/// The abstract contents of a [`ChapterDraft`].
#[verifier::ext_equal]
pub struct DraftView {
    pub id: Seq<char>,
    pub title: Seq<char>,
    pub scanlator: Seq<char>,
    pub url: Seq<char>,
}

impl View for ChapterDraft {
    type V = DraftView;

    open spec fn view(&self) -> DraftView {
        DraftView { id: self.id@, title: self.title@, scanlator: self.scanlator@, url: self.url@ }
    }
}

/// One image of a chapter, with its position among the chapter's images.
#[derive(Clone, Debug)]
pub struct Page {
    pub index: usize,
    pub url: String,
}

/// The abstract contents of a [`Page`].
#[verifier::ext_equal]
pub struct PageView {
    pub index: nat,
    pub url: Seq<char>,
}

impl View for Page {
    type V = PageView;

    open spec fn view(&self) -> PageView {
        PageView { index: self.index as nat, url: self.url@ }
    }
}

/// A filter as the app hands it over: a search title, a selection made in a
/// named select box (the position of the chosen option), or anything else.
#[derive(Clone, Debug)]
pub enum Filter {
    Title(String),
    Select { name: String, index: i64 },
    Other,
}

/// The abstract contents of a [`Filter`].
pub enum FilterView {
    Title(Seq<char>),
    Select { name: Seq<char>, index: i64 },
    Other,
}

impl View for Filter {
    type V = FilterView;

    open spec fn view(&self) -> FilterView {
        match self {
            Filter::Title(q) => FilterView::Title(q@),
            Filter::Select { name, index } => FilterView::Select { name: name@, index: *index },
            Filter::Other => FilterView::Other,
        }
    }
}

/// The three values read from one entry of a listing page: the attribute the
/// id is taken from, the one the cover is taken from, and the title text.
#[derive(Clone, Debug)]
pub struct ListNode {
    pub link: String,
    pub image: String,
    pub label: String,
}

/// The abstract contents of a [`ListNode`].
pub struct ListNodeView {
    pub link: Seq<char>,
    pub image: Seq<char>,
    pub label: Seq<char>,
}

impl View for ListNode {
    type V = ListNodeView;

    open spec fn view(&self) -> ListNodeView {
        ListNodeView { link: self.link@, image: self.image@, label: self.label@ }
    }
}

/// The values read from one chapter entry: its link, its text, and one more
/// attribute or text the source needs (a title attribute, a price tag).
#[derive(Clone, Debug)]
pub struct ChapterNode {
    pub link: String,
    pub label: String,
    pub extra: String,
}

/// The abstract contents of a [`ChapterNode`].
pub struct ChapterNodeView {
    pub link: Seq<char>,
    pub label: Seq<char>,
    pub extra: Seq<char>,
}

impl View for ChapterNode {
    type V = ChapterNodeView;

    open spec fn view(&self) -> ChapterNodeView {
        ChapterNodeView { link: self.link@, label: self.label@, extra: self.extra@ }
    }
}

/// The two image attributes read from one image element (the primary one
/// and the one used in its place).
#[derive(Clone, Debug)]
pub struct ImageNode {
    pub primary: String,
    pub fallback: String,
}

/// The abstract contents of an [`ImageNode`].
pub struct ImageNodeView {
    pub primary: Seq<char>,
    pub fallback: Seq<char>,
}

impl View for ImageNode {
    type V = ImageNodeView;

    open spec fn view(&self) -> ImageNodeView {
        ImageNodeView { primary: self.primary@, fallback: self.fallback@ }
    }
}

/// Views of a sequence of optional values (a missing node stays missing).
pub open spec fn opt_views<T: View>(s: Seq<Option<T>>) -> Seq<Option<T::V>> {
    s.map_values(|o: Option<T>| match o {
        Some(x) => Some(x@),
        None => None,
    })
}

/// The present values of `s`, in order.
pub open spec fn somes<T>(s: Seq<Option<T>>) -> Seq<T>
    decreases s.len(),
{
    if s.len() == 0 {
        Seq::empty()
    } else {
        let rest = somes(s.drop_last());
        match s.last() {
            Some(x) => rest.push(x),
            None => rest,
        }
    }
}

/// The views of a sequence of viewable values.
pub open spec fn seq_views<T: View>(s: Seq<T>) -> Seq<T::V> {
    s.map_values(|x: T| x@)
}

} // verus!
