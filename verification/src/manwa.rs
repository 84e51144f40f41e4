//! The manwa source. Its address is a user setting, passed in as `base`.
use vstd::prelude::*;
use crate::assemble::{
    collect_drafts, collect_entries, collect_pages, drafts_spec, entries_spec, newest_first, number_newest_first,
    paged, urls_spec, ChapterRule, EntryRule, PageRule,
};
use crate::filters::{apply_filters, choice_spec, select_table, selects_ok, selects_valid, FilterChoice, SelectTable, SelectTableView};
use crate::model::{
    listed, listed_manga, opt_views, seq_views, Chapter, ChapterDraft, ChapterNode, ChapterNodeView, ContentRating,
    DraftView, Filter, FilterView, ImageNode, ImageNodeView, ListNode, ListNodeView, Manga, MangaPageResult, MangaStatus,
    MangaView, Page, Viewer,
};
use crate::text::{
    dec_int, i32_to_string, join_seq, replace, replace_seq, split_join, split_seq, text_eq, trim, trim_nonempty, trim_seq,
    trimmed_nonempty, views,
};

verus! {

/// The select boxes of the listing: region, progress, order.
pub open spec fn filter_tables_spec() -> Seq<SelectTableView> {
    seq![
        SelectTableView { name: "地区"@, values: seq![""@, "2"@, "3"@, "4"@, "5"@, "6"@, "1"@] },
        SelectTableView { name: "进度"@, values: seq![""@, "2"@, "1"@] },
        SelectTableView { name: "排序"@, values: seq!["-1"@, "0"@, "1"@, "2"@] },
    ]
}

/// The select boxes of the listing.
pub fn filter_tables() -> (r: Vec<SelectTable>)
    ensures
        seq_views(r@) == filter_tables_spec(),
{
    let mut r: Vec<SelectTable> = Vec::new();
    r.push(select_table("地区", &["", "2", "3", "4", "5", "6", "1"]));
    r.push(select_table("进度", &["", "2", "1"]));
    r.push(select_table("排序", &["-1", "0", "1", "2"]));
    assert(seq_views(r@) =~~= filter_tables_spec());
    r
}

/// Whether every selection names an option of its box.
pub fn filters_valid(filters: &Vec<Filter>) -> (r: bool)
    ensures
        r == selects_ok(filter_tables_spec(), seq_views(filters@)),
{
    selects_valid(filters, &filter_tables())
}

proof fn lemma_choice_picks(filters: Seq<FilterView>)
    ensures
        choice_spec(filter_tables_spec(), filters).picks.len() == 3,
    decreases filters.len(),
{
    if filters.len() > 0 {
        lemma_choice_picks(filters.drop_last());
        match filters.last() {
            FilterView::Select { name, index } => {
                crate::filters::lemma_table_for(filter_tables_spec(), name);
            },
            _ => {},
        }
    }
}

/// The search text and the region, progress and order chosen.
pub fn filter_choice(filters: &Vec<Filter>) -> (r: FilterChoice)
    requires
        selects_ok(filter_tables_spec(), seq_views(filters@)),
    ensures
        r@ == choice_spec(filter_tables_spec(), seq_views(filters@)),
        r@.picks.len() == 3,
{
    proof {
        lemma_choice_picks(seq_views(filters@));
    }
    apply_filters(filters, &filter_tables())
}

/// The listing page for the chosen progress, region and order, or the
/// search page for the search text (given percent-encoded) when there is one.
pub fn manga_list_url(base: &str, choice: &FilterChoice, encoded_query: &str, page: i32) -> (r: String)
    requires
        choice@.picks.len() == 3,
    ensures
        r@ == if choice@.query.len() == 0 {
            base@ + "/booklist?tag=&end="@ + choice@.picks[1] + "&gender=-1&has_full=-1&area="@ + choice@.picks[0]
                + "&sort="@ + choice@.picks[2] + "&level=-1&page="@ + dec_int(page as int)
        } else {
            base@ + "/search?keyword="@ + encoded_query@
        },
{
    let mut r = base.to_owned();
    if choice.query.as_str().is_empty() {
        r.append("/booklist?tag=&end=");
        r.append(choice.picks[1].as_str());
        r.append("&gender=-1&has_full=-1&area=");
        r.append(choice.picks[0].as_str());
        r.append("&sort=");
        r.append(choice.picks[2].as_str());
        r.append("&level=-1&page=");
        r.append(i32_to_string(page).as_str());
    } else {
        r.append("/search?keyword=");
        r.append(encoded_query);
    }
    r
}

/// How an entry of the listing or of a search (link `href`, cover image,
/// link `title`) becomes a comic.
pub struct Entries;

impl EntryRule for Entries {
    open spec fn entry_spec(&self, n: ListNodeView) -> MangaView {
        listed(replace_seq(n.link, "/book/"@, ""@), n.image, n.label)
    }

    fn entry(&self, n: &ListNode) -> (m: Manga) {
        listed_manga(replace(n.link.as_str(), "/book/", ""), n.image.clone(), n.label.clone())
    }
}

/// A page of the listing or of a search; more pages follow unless a search
/// was made.
pub fn manga_list(choice: &FilterChoice, nodes: &Vec<Option<ListNode>>) -> (r: MangaPageResult)
    ensures
        seq_views(r.manga@) == entries_spec(&Entries, opt_views(nodes@)),
        r.has_more == (choice@.query.len() == 0),
{
    MangaPageResult { manga: collect_entries(&Entries, nodes), has_more: choice.query.as_str().is_empty() }
}

/// The page of a comic.
pub fn manga_url(base: &str, id: &str) -> (r: String)
    ensures
        r@ == base@ + "/book/"@ + id@,
{
    let mut r = base.to_owned();
    r.append("/book/");
    r.append(id);
    r
}

/// Where the author and the status stand on a comic's page: their rows move
/// down by one when the information block has seven rows or more.
pub fn detail_selectors(row_count: usize) -> (r: (String, String))
    ensures
        row_count < 7 ==> r.0@ == ".detail-main-info > p:nth-child(1) > span.detail-main-info-value > a"@
            && r.1@ == ".detail-main-info > p:nth-child(2) > span.detail-main-info-value"@,
        row_count >= 7 ==> r.0@ == ".detail-main-info > p:nth-child(2) > span.detail-main-info-value > a"@
            && r.1@ == ".detail-main-info > p:nth-child(3) > span.detail-main-info-value"@,
{
    if row_count < 7 {
        (
            ".detail-main-info > p:nth-child(1) > span.detail-main-info-value > a".to_owned(),
            ".detail-main-info > p:nth-child(2) > span.detail-main-info-value".to_owned(),
        )
    } else {
        (
            ".detail-main-info > p:nth-child(2) > span.detail-main-info-value > a".to_owned(),
            ".detail-main-info > p:nth-child(3) > span.detail-main-info-value".to_owned(),
        )
    }
}

/// Ongoing or completed when the status text is exactly the site's word for
/// it, unknown otherwise.
pub open spec fn status_exact(text: Seq<char>) -> MangaStatus {
    if text == "连载中"@ {
        MangaStatus::Ongoing
    } else if text == "已完结"@ {
        MangaStatus::Completed
    } else {
        MangaStatus::Unknown
    }
}

/// The comic described on its page.
pub open spec fn details_spec(
    base: Seq<char>,
    id: Seq<char>,
    cover: Seq<char>,
    title: Seq<char>,
    author_text: Seq<char>,
    description: Seq<char>,
    categories: Seq<Seq<char>>,
    status_text: Seq<char>,
) -> MangaView {
    MangaView {
        id,
        cover,
        title: trim_seq(title),
        author: join_seq(split_seq(trim_seq(author_text), " "@), ", "@),
        artist: Seq::empty(),
        description: replace_seq(trim_seq(description), "免费成人H漫线上看"@, ""@),
        url: base + "/book/"@ + id,
        categories: trimmed_nonempty(categories),
        status: status_exact(status_text),
        nsfw: ContentRating::Nsfw,
        viewer: Viewer::Scroll,
    }
}

/// The comic described on its page.
pub fn manga_details(
    base: &str,
    id: &str,
    cover: &str,
    title: &str,
    author_text: &str,
    description: &str,
    categories: &Vec<String>,
    status_text: &str,
) -> (r: Manga)
    ensures
        r@ == details_spec(base@, id@, cover@, title@, author_text@, description@, views(categories@), status_text@),
{
    let status = if text_eq(status_text, "连载中") {
        MangaStatus::Ongoing
    } else if text_eq(status_text, "已完结") {
        MangaStatus::Completed
    } else {
        MangaStatus::Unknown
    };
    let r = Manga {
        id: id.to_owned(),
        cover: cover.to_owned(),
        title: trim(title),
        author: split_join(trim(author_text).as_str(), " ", ", "),
        artist: String::new(),
        description: replace(trim(description).as_str(), "免费成人H漫线上看", ""),
        url: manga_url(base, id),
        categories: trim_nonempty(categories),
        status,
        nsfw: ContentRating::Nsfw,
        viewer: Viewer::Scroll,
    };
    assert(r@ =~= details_spec(base@, id@, cover@, title@, author_text@, description@, views(categories@), status_text@));
    r
}

/// The reading page of a chapter.
pub fn chapter_url(base: &str, chapter_id: &str) -> (r: String)
    ensures
        r@ == base@ + "/chapter/"@ + chapter_id@,
{
    let mut r = base.to_owned();
    r.append("/chapter/");
    r.append(chapter_id);
    r
}

/// How a chapter entry (link `href`, link `title`) becomes a chapter.
pub struct Chapters {
    pub base: String,
}

impl ChapterRule for Chapters {
    open spec fn draft_spec(&self, n: ChapterNodeView) -> Option<DraftView> {
        let id = replace_seq(n.link, "/chapter/"@, ""@);
        Some(DraftView { id, title: n.label, scanlator: Seq::empty(), url: self.base@ + "/chapter/"@ + id })
    }

    fn draft(&self, n: &ChapterNode) -> (d: Option<ChapterDraft>) {
        let id = replace(n.link.as_str(), "/chapter/", "");
        let url = chapter_url(self.base.as_str(), id.as_str());
        let d = ChapterDraft { id, title: n.label.clone(), scanlator: String::new(), url };
        assert(self.draft_spec(n@) == Some(d@));
        Some(d)
    }
}

/// The chapters of a comic, newest first.
pub fn chapter_list(rule: &Chapters, nodes: &Vec<Option<ChapterNode>>) -> (r: Vec<Chapter>)
    ensures
        seq_views(r@) == newest_first(drafts_spec(rule, opt_views(nodes@))),
{
    number_newest_first(&collect_drafts(rule, nodes))
}

/// How an image gives its address: its `data-r-src`, trimmed.
pub struct Pages;

impl PageRule for Pages {
    open spec fn url_spec(&self, n: ImageNodeView) -> Seq<char> {
        trim_seq(n.primary)
    }

    fn url(&self, n: &ImageNode) -> (u: String) {
        trim(n.primary.as_str())
    }
}

/// The pages of a chapter, one per image that could be read.
pub fn page_list(nodes: &Vec<Option<ImageNode>>) -> (r: Vec<Page>)
    ensures
        seq_views(r@) == paged(urls_spec(&Pages, opt_views(nodes@))),
{
    collect_pages(&Pages, nodes)
}

/// Each page's address is the trimmed `data-r-src` of the image at the page's index.
pub proof fn law_page_address(nodes: Seq<Option<crate::model::ImageNodeView>>)
    ensures
        forall|i: int| 0 <= i < crate::assemble::paged(crate::assemble::urls_spec(&Pages, nodes)).len() ==> {
            let p = #[trigger] crate::assemble::paged(crate::assemble::urls_spec(&Pages, nodes))[i];
            let n = nodes[p.index as int]->0;
            &&& p.index < nodes.len()
            &&& nodes[p.index as int] is Some
            &&& p.url == crate::text::trim_seq(n.primary)
        },
{
    crate::laws::law_page_from_image(&Pages, nodes);
}

/// Each chapter comes from the entry at position `number - 1`: its id is the entry's link without
/// `/chapter/`, its title the entry's link title as read, and its address the chapter page of that
/// id.
pub proof fn law_chapter_fields(rule: Chapters, nodes: Seq<Option<crate::model::ChapterNodeView>>)
    ensures
        forall|i: int| 0 <= i < crate::assemble::newest_first(crate::assemble::drafts_spec(&rule, nodes)).len() ==> {
            let c = #[trigger] crate::assemble::newest_first(crate::assemble::drafts_spec(&rule, nodes))[i];
            let k = c.number - 1;
            let n = nodes[k]->0;
            &&& 0 <= k < nodes.len()
            &&& nodes[k] is Some
            &&& c.id == crate::text::replace_seq(n.link, "/chapter/"@, ""@)
            &&& c.title == n.label
            &&& c.url == rule.base@ + "/chapter/"@ + c.id
            &&& c.scanlator.len() == 0
        },
{
    crate::laws::law_chapter_from_entry(crate::assemble::drafts_spec(&rule, nodes));
    assert forall|i: int| 0 <= i < crate::assemble::newest_first(crate::assemble::drafts_spec(&rule, nodes)).len() implies {
            let c = #[trigger] crate::assemble::newest_first(crate::assemble::drafts_spec(&rule, nodes))[i];
            let k = c.number - 1;
            let n = nodes[k]->0;
            &&& 0 <= k < nodes.len()
            &&& nodes[k] is Some
            &&& c.id == crate::text::replace_seq(n.link, "/chapter/"@, ""@)
            &&& c.title == n.label
            &&& c.url == rule.base@ + "/chapter/"@ + c.id
            &&& c.scanlator.len() == 0
        } by {
        let c = crate::assemble::newest_first(crate::assemble::drafts_spec(&rule, nodes))[i];
        let k = c.number - 1;
        crate::laws::lemma_draft_from_node(&rule, nodes, k);
    }
}

/// The comics of a listing are, in order, one per entry that could be read: its id is the entry's
/// link without `/book/`, its cover the entry's image, its title the entry's title.
pub proof fn law_listing_entry_fields(nodes: Seq<Option<crate::model::ListNodeView>>)
    ensures
        crate::assemble::entries_spec(&Entries, nodes).len() == crate::model::somes(nodes).len(),
        forall|i: int| 0 <= i < crate::model::somes(nodes).len() ==> {
            let m = #[trigger] crate::assemble::entries_spec(&Entries, nodes)[i];
            let n = crate::model::somes(nodes)[i];
            &&& m.id == crate::text::replace_seq(n.link, "/book/"@, ""@)
            &&& m.cover == n.image
            &&& m.title == n.label
        },
{
    crate::laws::law_entries_in_order(&Entries, nodes);
}

/// Each select box maps option `i` to the `i`-th of the site's values for it; a lone selection sets
/// that box's value.
pub proof fn law_filter_options(i: i64)
    ensures
        0 <= i < 7 ==> crate::filters::choice_spec(filter_tables_spec(), seq![crate::model::FilterView::Select { name: "地区"@, index: i }]).picks[0]
            == seq![""@, "2"@, "3"@, "4"@, "5"@, "6"@, "1"@][i as int],
        0 <= i < 3 ==> crate::filters::choice_spec(filter_tables_spec(), seq![crate::model::FilterView::Select { name: "进度"@, index: i }]).picks[1]
            == seq![""@, "2"@, "1"@][i as int],
        0 <= i < 4 ==> crate::filters::choice_spec(filter_tables_spec(), seq![crate::model::FilterView::Select { name: "排序"@, index: i }]).picks[2]
            == seq!["-1"@, "0"@, "1"@, "2"@][i as int],
{
    reveal_strlit("地区");
    reveal_strlit("进度");
    reveal_strlit("排序");
    let t = filter_tables_spec();
    let names = seq!["地区"@, "进度"@, "排序"@];
    assert forall|a: int, c: int| 0 <= a < names.len() && 0 <= c < names.len() && a != c implies #[trigger] names[a]
        != #[trigger] names[c] by {
        assert(names[a][0] != names[c][0]);
    }
    assert(forall|a: int| 0 <= a < t.len() ==> #[trigger] t[a].name == names[a]);
    crate::filters::lemma_table_hit(t, names, 0, 0);
    if 0 <= i < 7 {
        crate::filters::law_lone_selection(t, 0, i);
    }
    crate::filters::lemma_table_hit(t, names, 1, 0);
    if 0 <= i < 3 {
        crate::filters::law_lone_selection(t, 1, i);
    }
    crate::filters::lemma_table_hit(t, names, 2, 0);
    if 0 <= i < 4 {
        crate::filters::law_lone_selection(t, 2, i);
    }
}

/// A comic read from its page: the given id and cover; the title trimmed; the space-separated
/// authors joined with `, `; no artist; the description trimmed and without the site's tag line;
/// its page address; ongoing exactly for 连载中 and completed exactly for 已完结, else unknown; rated
/// adult and read by scrolling; every category non-empty and trimmed.
pub proof fn law_details_fields(base: Seq<char>, id: Seq<char>, cover: Seq<char>, title: Seq<char>, author_text: Seq<char>, description: Seq<char>, categories: Seq<Seq<char>>, status_text: Seq<char>)
    ensures
        ({
            let r = details_spec(base, id, cover, title, author_text, description, categories, status_text);
            &&& r.id == id
            &&& r.cover == cover
            &&& r.title == crate::text::trim_seq(title)
            &&& r.author == crate::text::join_seq(crate::text::split_seq(crate::text::trim_seq(author_text), " "@), ", "@)
            &&& r.artist.len() == 0
            &&& r.description == crate::text::replace_seq(crate::text::trim_seq(description), "免费成人H漫线上看"@, ""@)
            &&& r.url == base + "/book/"@ + id
            &&& status_text == "连载中"@ ==> r.status == crate::model::MangaStatus::Ongoing
            &&& status_text == "已完结"@ ==> r.status == crate::model::MangaStatus::Completed
            &&& (status_text != "连载中"@ && status_text != "已完结"@) ==> r.status == crate::model::MangaStatus::Unknown
            &&& r.nsfw == crate::model::ContentRating::Nsfw
            &&& r.viewer == crate::model::Viewer::Scroll
            &&& forall|i: int| 0 <= i < r.categories.len() ==> (#[trigger] r.categories[i]).len() > 0 && crate::text::trim_seq(r.categories[i]) == r.categories[i]
        }),
{
    reveal_strlit("连载中");
    reveal_strlit("已完结");
    assert("连载中"@[0] != "已完结"@[0]);
    crate::text::law_trimmed_nonempty_clean(categories);
}

/// A comic listed with the link `/book/<id>`, with an `<id>` that does not contain `/book/`, has
/// the id `<id>`, and its page is
/// the comic's site address followed by that link.
pub proof fn law_listed_id_leads_to_page(base: Seq<char>, id: Seq<char>, cover: Seq<char>, title: Seq<char>, author_text: Seq<char>, description: Seq<char>, categories: Seq<Seq<char>>, status_text: Seq<char>, image: Seq<char>, label: Seq<char>)
    requires
        !crate::text::contains_seq(id, "/book/"@),
    ensures
        Entries.entry_spec(crate::model::ListNodeView { link: "/book/"@ + id, image, label }).id == id,
        details_spec(base, id, cover, title, author_text, description, categories, status_text).url == base + ("/book/"@ + id),
{
    reveal_strlit("/book/");
    reveal_strlit("");
    assert(""@ =~= Seq::<char>::empty());
    crate::laws::law_strip_prefix("/book/"@, id);
    assert(details_spec(base, id, cover, title, author_text, description, categories, status_text).url =~= base + ("/book/"@ + id));
}

} // verus!
