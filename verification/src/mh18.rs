//! The 18mh source.
use vstd::prelude::*;
use crate::assemble::{
    collect_drafts, collect_entries, collect_pages, drafts_spec, entries_spec, newest_first, number_newest_first,
    paged, status_by, status_by_markers, urls_spec, ChapterRule, EntryRule, PageRule,
};
use crate::filters::{apply_filters, choice_spec, select_table, selects_ok, selects_valid, FilterChoice, SelectTable, SelectTableView};
use crate::model::{
    listed, listed_manga, opt_views, seq_views, Chapter, ChapterDraft, ChapterNode, ChapterNodeView, ContentRating,
    DraftView, Filter, FilterView, ImageNode, ImageNodeView, ListNode, ListNodeView, Manga, MangaPageResult, MangaView,
    Page, Viewer,
};
use crate::text::{
    after_seq, before_seq, dec_int, i32_to_string, replace, replace_seq, starts_with, starts_with_seq, text_after,
    text_before, trim, trim_nonempty, trim_seq, trimmed_nonempty, views,
};

verus! {

/// The site's address.
pub const BASE_URL: &'static str = "https://18mh.org";

/// The select box of the listing: the category.
pub open spec fn filter_tables_spec() -> Seq<SelectTableView> {
    seq![
        SelectTableView {
            name: "類型"@,
            values: seq![""@, "-genre/hanman"@, "-genre/zhenrenxiezhen"@, "-genre/riman"@, "-genre/aixiezhen"@, "-genre/hots"@],
        },
    ]
}

/// The select box of the listing.
pub fn filter_tables() -> (r: Vec<SelectTable>)
    ensures
        seq_views(r@) == filter_tables_spec(),
{
    let mut r: Vec<SelectTable> = Vec::new();
    r.push(select_table("類型", &["", "-genre/hanman", "-genre/zhenrenxiezhen", "-genre/riman", "-genre/aixiezhen", "-genre/hots"]));
    assert(seq_views(r@) =~~= filter_tables_spec());
    r
}

/// Whether every selection names an option of its box.
pub fn filters_valid(filters: &Vec<Filter>) -> (r: bool)
    ensures
        r == selects_ok(filter_tables_spec(), seq_views(filters@)),
{
    selects_valid(filters, &filter_tables())
}

proof fn lemma_choice_picks(filters: Seq<FilterView>)
    ensures
        choice_spec(filter_tables_spec(), filters).picks.len() == 1,
    decreases filters.len(),
{
    if filters.len() > 0 {
        lemma_choice_picks(filters.drop_last());
        match filters.last() {
            FilterView::Select { name, index } => {
                crate::filters::lemma_table_for(filter_tables_spec(), name);
            },
            _ => {},
        }
    }
}

/// The search text and the category chosen.
pub fn filter_choice(filters: &Vec<Filter>) -> (r: FilterChoice)
    requires
        selects_ok(filter_tables_spec(), seq_views(filters@)),
    ensures
        r@ == choice_spec(filter_tables_spec(), seq_views(filters@)),
        r@.picks.len() == 1,
{
    proof {
        lemma_choice_picks(seq_views(filters@));
    }
    apply_filters(filters, &filter_tables())
}

/// The listing page for the chosen category, or the search page for the
/// search text (given percent-encoded) when there is one.
pub fn manga_list_url(choice: &FilterChoice, encoded_query: &str, page: i32) -> (r: String)
    requires
        choice@.picks.len() == 1,
    ensures
        r@ == if choice@.query.len() == 0 {
            BASE_URL@ + "/manga"@ + choice@.picks[0] + "/page/"@ + dec_int(page as int)
        } else {
            BASE_URL@ + "/s/"@ + encoded_query@ + "?page="@ + dec_int(page as int)
        },
{
    let mut r = BASE_URL.to_owned();
    if choice.query.as_str().is_empty() {
        r.append("/manga");
        r.append(choice.picks[0].as_str());
        r.append("/page/");
    } else {
        r.append("/s/");
        r.append(encoded_query);
        r.append("?page=");
    }
    r.append(i32_to_string(page).as_str());
    r
}

/// How an entry of the listing (image `alt`, image `src`, title text)
/// becomes a comic.
pub struct Entries;

impl EntryRule for Entries {
    open spec fn entry_spec(&self, n: ListNodeView) -> MangaView {
        listed(n.link, n.image, n.label)
    }

    fn entry(&self, n: &ListNode) -> (m: Manga) {
        listed_manga(n.link.clone(), n.image.clone(), n.label.clone())
    }
}

/// A page of the listing; more pages follow unless a search was made.
pub fn manga_list(choice: &FilterChoice, nodes: &Vec<Option<ListNode>>) -> (r: MangaPageResult)
    ensures
        seq_views(r.manga@) == entries_spec(&Entries, opt_views(nodes@)),
        r.has_more == (choice@.query.len() == 0),
{
    MangaPageResult { manga: collect_entries(&Entries, nodes), has_more: choice.query.as_str().is_empty() }
}

/// The page of a comic.
pub fn manga_url(id: &str) -> (r: String)
    ensures
        r@ == BASE_URL@ + "/manga/"@ + id@,
{
    let mut r = BASE_URL.to_owned();
    r.append("/manga/");
    r.append(id);
    r
}

/// The structured data block of a comic's page: the text between the
/// opening of the `application/ld+json` script and the next script.
pub open spec fn info_json_spec(html: Seq<char>) -> Option<Seq<char>> {
    match after_seq(html, "application/ld+json\">"@) {
        Some(a) => before_seq(a, "</script><script \u{61}sync"@),
        None => None,
    }
}

/// The structured data block of a comic's page, when both markers occur.
pub fn info_json(html: &str) -> (r: Option<String>)
    ensures
        r matches Some(t) ==> info_json_spec(html@) == Some(t@),
        r is None ==> info_json_spec(html@) is None,
{
    match text_after(html, "application/ld+json\">") {
        Some(a) => text_before(a.as_str(), "</script><script \u{61}sync"),
        None => None,
    }
}

/// The comic described on its page: cover, title, description and status
/// from the structured data, author and categories from the page.
pub open spec fn details_spec(
    id: Seq<char>,
    image: Seq<char>,
    name: Seq<char>,
    author_text: Seq<char>,
    description: Seq<char>,
    categories: Seq<Seq<char>>,
    status_text: Seq<char>,
) -> MangaView {
    MangaView {
        id,
        cover: image,
        title: name,
        author: replace_seq(trim_seq(author_text), "作者："@, ""@),
        artist: Seq::empty(),
        description,
        url: BASE_URL@ + "/manga/"@ + id,
        categories: trimmed_nonempty(categories),
        status: status_by(status_text, "完結"@, "連載中"@),
        nsfw: ContentRating::Nsfw,
        viewer: Viewer::Scroll,
    }
}

/// The comic described on its page.
pub fn manga_details(
    id: &str,
    image: &str,
    name: &str,
    author_text: &str,
    description: &str,
    categories: &Vec<String>,
    status_text: &str,
) -> (r: Manga)
    ensures
        r@ == details_spec(id@, image@, name@, author_text@, description@, views(categories@), status_text@),
{
    let r = Manga {
        id: id.to_owned(),
        cover: image.to_owned(),
        title: name.to_owned(),
        author: replace(trim(author_text).as_str(), "作者：", ""),
        artist: String::new(),
        description: description.to_owned(),
        url: manga_url(id),
        categories: trim_nonempty(categories),
        status: status_by_markers(status_text, "完結", "連載中"),
        nsfw: ContentRating::Nsfw,
        viewer: Viewer::Scroll,
    };
    assert(r@ =~= details_spec(id@, image@, name@, author_text@, description@, views(categories@), status_text@));
    r
}

/// The chapter index of a comic, by the comic's internal number.
pub fn chapter_list_url(mid: &str) -> (r: String)
    ensures
        r@ == BASE_URL@ + "/manga/get?mid="@ + mid@ + "&mode=all"@,
{
    let mut r = BASE_URL.to_owned();
    r.append("/manga/get?mid=");
    r.append(mid);
    r.append("&mode=all");
    r
}

/// How a chapter entry (link `data-cs`, title text, link `href`) becomes a
/// chapter.
pub struct Chapters;

impl ChapterRule for Chapters {
    open spec fn draft_spec(&self, n: ChapterNodeView) -> Option<DraftView> {
        Some(DraftView { id: n.link, title: trim_seq(n.label), scanlator: Seq::empty(), url: BASE_URL@ + n.extra })
    }

    fn draft(&self, n: &ChapterNode) -> (d: Option<ChapterDraft>) {
        let mut url = BASE_URL.to_owned();
        url.append(n.extra.as_str());
        let d = ChapterDraft { id: n.link.clone(), title: trim(n.label.as_str()), scanlator: String::new(), url };
        assert(self.draft_spec(n@) == Some(d@));
        Some(d)
    }
}

/// The chapters of a comic, newest first.
pub fn chapter_list(nodes: &Vec<Option<ChapterNode>>) -> (r: Vec<Chapter>)
    ensures
        seq_views(r@) == newest_first(drafts_spec(&Chapters, opt_views(nodes@))),
{
    number_newest_first(&collect_drafts(&Chapters, nodes))
}

/// The images of a chapter, by the comic's internal number.
pub fn page_list_url(mid: &str, chapter_id: &str) -> (r: String)
    ensures
        r@ == BASE_URL@ + "/chapter/getcontent?m="@ + mid@ + "&c="@ + chapter_id@,
{
    let mut r = BASE_URL.to_owned();
    r.append("/chapter/getcontent?m=");
    r.append(mid);
    r.append("&c=");
    r.append(chapter_id);
    r
}

/// How an image gives its address: its `src` when that starts with `http`,
/// else its `data-src`.
pub struct Pages;

impl PageRule for Pages {
    open spec fn url_spec(&self, n: ImageNodeView) -> Seq<char> {
        if starts_with_seq(trim_seq(n.primary), "http"@) {
            trim_seq(n.primary)
        } else {
            trim_seq(n.fallback)
        }
    }

    fn url(&self, n: &ImageNode) -> (u: String) {
        let src = trim(n.primary.as_str());
        if starts_with(src.as_str(), "http") {
            src
        } else {
            trim(n.fallback.as_str())
        }
    }
}

/// The pages of a chapter, one per image that could be read.
pub fn page_list(nodes: &Vec<Option<ImageNode>>) -> (r: Vec<Page>)
    ensures
        seq_views(r@) == paged(urls_spec(&Pages, opt_views(nodes@))),
{
    collect_pages(&Pages, nodes)
}

/// Each page's address is the trimmed `src` of the image at the page's index when it starts with
/// `http`, else its trimmed `data-src`.
pub proof fn law_page_address(nodes: Seq<Option<crate::model::ImageNodeView>>)
    ensures
        forall|i: int| 0 <= i < crate::assemble::paged(crate::assemble::urls_spec(&Pages, nodes)).len() ==> {
            let p = #[trigger] crate::assemble::paged(crate::assemble::urls_spec(&Pages, nodes))[i];
            let n = nodes[p.index as int]->0;
            &&& p.index < nodes.len()
            &&& nodes[p.index as int] is Some
            &&& p.url == (if crate::text::starts_with_seq(crate::text::trim_seq(n.primary), "http"@) { crate::text::trim_seq(n.primary) } else { crate::text::trim_seq(n.fallback) })
        },
{
    crate::laws::law_page_from_image(&Pages, nodes);
}

/// Each chapter comes from the entry at position `number - 1`: its id is the entry's `data-cs`, its
/// title the entry's trimmed title text, and its address the site address followed by the entry's
/// link.
pub proof fn law_chapter_fields(nodes: Seq<Option<crate::model::ChapterNodeView>>)
    ensures
        forall|i: int| 0 <= i < crate::assemble::newest_first(crate::assemble::drafts_spec(&Chapters, nodes)).len() ==> {
            let c = #[trigger] crate::assemble::newest_first(crate::assemble::drafts_spec(&Chapters, nodes))[i];
            let k = c.number - 1;
            let n = nodes[k]->0;
            &&& 0 <= k < nodes.len()
            &&& nodes[k] is Some
            &&& c.id == n.link
            &&& c.title == crate::text::trim_seq(n.label)
            &&& c.url == BASE_URL@ + n.extra
            &&& c.scanlator.len() == 0
        },
{
    crate::laws::law_chapter_from_entry(crate::assemble::drafts_spec(&Chapters, nodes));
    assert forall|i: int| 0 <= i < crate::assemble::newest_first(crate::assemble::drafts_spec(&Chapters, nodes)).len() implies {
            let c = #[trigger] crate::assemble::newest_first(crate::assemble::drafts_spec(&Chapters, nodes))[i];
            let k = c.number - 1;
            let n = nodes[k]->0;
            &&& 0 <= k < nodes.len()
            &&& nodes[k] is Some
            &&& c.id == n.link
            &&& c.title == crate::text::trim_seq(n.label)
            &&& c.url == BASE_URL@ + n.extra
            &&& c.scanlator.len() == 0
        } by {
        let c = crate::assemble::newest_first(crate::assemble::drafts_spec(&Chapters, nodes))[i];
        let k = c.number - 1;
        crate::laws::lemma_draft_from_node(&Chapters, nodes, k);
    }
}

/// The comics of a listing are, in order, one per entry that could be read: its id is the entry's
/// id attribute, its cover the entry's image, its title the entry's title.
pub proof fn law_listing_entry_fields(nodes: Seq<Option<crate::model::ListNodeView>>)
    ensures
        crate::assemble::entries_spec(&Entries, nodes).len() == crate::model::somes(nodes).len(),
        forall|i: int| 0 <= i < crate::model::somes(nodes).len() ==> {
            let m = #[trigger] crate::assemble::entries_spec(&Entries, nodes)[i];
            let n = crate::model::somes(nodes)[i];
            &&& m.id == n.link
            &&& m.cover == n.image
            &&& m.title == n.label
        },
{
    crate::laws::law_entries_in_order(&Entries, nodes);
}

/// A comic is completed when its status text mentions 完結, otherwise ongoing when it mentions 連載中,
/// otherwise of unknown status.
pub proof fn law_status_words(id: Seq<char>, image: Seq<char>, name: Seq<char>, author_text: Seq<char>, description: Seq<char>, categories: Seq<Seq<char>>, status_text: Seq<char>)
    ensures
        ({
            let st = details_spec(id, image, name, author_text, description, categories, status_text).status;
            let t = status_text;
            &&& crate::text::contains_seq(t, "完結"@) ==> st == crate::model::MangaStatus::Completed
            &&& (!crate::text::contains_seq(t, "完結"@) && crate::text::contains_seq(t, "連載中"@)) ==> st == crate::model::MangaStatus::Ongoing
            &&& (!crate::text::contains_seq(t, "完結"@) && !crate::text::contains_seq(t, "連載中"@)) ==> st == crate::model::MangaStatus::Unknown
        }),
{
}

/// Each select box maps option `i` to the `i`-th of the site's values for it; a lone selection sets
/// that box's value.
pub proof fn law_filter_options(i: i64)
    ensures
        0 <= i < 6 ==> crate::filters::choice_spec(filter_tables_spec(), seq![crate::model::FilterView::Select { name: "類型"@, index: i }]).picks[0]
            == seq![""@, "-genre/hanman"@, "-genre/zhenrenxiezhen"@, "-genre/riman"@, "-genre/aixiezhen"@, "-genre/hots"@][i as int],
{
    reveal_strlit("類型");
    let t = filter_tables_spec();
    let names = seq!["類型"@];
    assert forall|a: int, c: int| 0 <= a < names.len() && 0 <= c < names.len() && a != c implies #[trigger] names[a]
        != #[trigger] names[c] by {
        assert(names[a][0] != names[c][0]);
    }
    assert(forall|a: int| 0 <= a < t.len() ==> #[trigger] t[a].name == names[a]);
    crate::filters::lemma_table_hit(t, names, 0, 0);
    if 0 <= i < 6 {
        crate::filters::law_lone_selection(t, 0, i);
    }
}

/// A comic read from its page: the given id, image and name; the author text trimmed and without
/// `作者：`; no artist; the description as read; its page address; rated adult and read by scrolling;
/// every category non-empty and trimmed.
pub proof fn law_details_fields(id: Seq<char>, image: Seq<char>, name: Seq<char>, author_text: Seq<char>, description: Seq<char>, categories: Seq<Seq<char>>, status_text: Seq<char>)
    ensures
        ({
            let r = details_spec(id, image, name, author_text, description, categories, status_text);
            &&& r.id == id
            &&& r.cover == image
            &&& r.title == name
            &&& r.author == crate::text::replace_seq(crate::text::trim_seq(author_text), "作者："@, ""@)
            &&& r.artist.len() == 0
            &&& r.description == description
            &&& r.url == BASE_URL@ + "/manga/"@ + id
            &&& r.nsfw == crate::model::ContentRating::Nsfw
            &&& r.viewer == crate::model::Viewer::Scroll
            &&& forall|i: int| 0 <= i < r.categories.len() ==> (#[trigger] r.categories[i]).len() > 0 && crate::text::trim_seq(r.categories[i]) == r.categories[i]
        }),
{
    crate::text::law_trimmed_nonempty_clean(categories);
}

} // verus!
