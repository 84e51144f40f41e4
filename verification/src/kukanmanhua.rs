//! The kukanmanhua source.
use vstd::prelude::*;
use crate::assemble::{
    collect_drafts, collect_entries, collect_pages, drafts_spec, entries_spec, newest_first, number_newest_first,
    paged, status_by, status_by_markers, urls_spec, ChapterRule, EntryRule, PageRule,
};
use crate::filters::{apply_filters, choice_spec, select_table, selects_ok, selects_valid, FilterChoice, SelectTable, SelectTableView};
use crate::model::{
    listed, listed_manga, opt_views, seq_views, Chapter, ChapterDraft, ChapterNode, ChapterNodeView, ContentRating,
    DraftView, Filter, FilterView, ImageNode, ImageNodeView, ListNode, ListNodeView, Manga, MangaPageResult, MangaView,
    Page, Viewer,
};
use crate::text::{
    dec_int, i32_to_string, join_seq, last_piece, replace, replace_seq, split_join, split_seq, trim, trim_nonempty,
    trim_seq, trimmed_nonempty, views,
};

verus! {

/// The site's address.
pub const BASE_URL: &'static str = "https://www.kukanmanhua.com";

/// The select boxes of the listing: theme, region, progress.
pub open spec fn filter_tables_spec() -> Seq<SelectTableView> {
    seq![
        SelectTableView {
            name: "题材"@,
            values: seq![
                "全部"@, "校园"@, "搞笑"@, "后宫"@, "生活"@, "恋爱"@, "霸总"@, "热血"@, "科幻"@, "古风"@, "真人"@,
                "悬疑"@, "穿越"@, "耽美"@, "恐怖"@, "修真"@, "百合"@, "伦理"@, "女主"@, "神幻"@,
            ],
        },
        SelectTableView { name: "地区"@, values: seq!["-1"@, "5"@, "4"@, "3"@, "2"@, "1"@] },
        SelectTableView { name: "进度"@, values: seq!["-1"@, "2"@, "1"@] },
    ]
}

/// The select boxes of the listing.
pub fn filter_tables() -> (r: Vec<SelectTable>)
    ensures
        seq_views(r@) == filter_tables_spec(),
{
    let mut r: Vec<SelectTable> = Vec::new();
    r.push(select_table("题材", &[
        "全部", "校园", "搞笑", "后宫", "生活", "恋爱", "霸总", "热血", "科幻", "古风", "真人", "悬疑", "穿越", "耽美",
        "恐怖", "修真", "百合", "伦理", "女主", "神幻",
    ]));
    r.push(select_table("地区", &["-1", "5", "4", "3", "2", "1"]));
    r.push(select_table("进度", &["-1", "2", "1"]));
    assert(seq_views(r@) =~~= filter_tables_spec());
    r
}

/// Whether every selection names an option of its box.
pub fn filters_valid(filters: &Vec<Filter>) -> (r: bool)
    ensures
        r == selects_ok(filter_tables_spec(), seq_views(filters@)),
{
    selects_valid(filters, &filter_tables())
}

proof fn lemma_choice_picks(filters: Seq<FilterView>)
    ensures
        choice_spec(filter_tables_spec(), filters).picks.len() == 3,
    decreases filters.len(),
{
    if filters.len() > 0 {
        lemma_choice_picks(filters.drop_last());
        match filters.last() {
            FilterView::Select { name, index } => {
                crate::filters::lemma_table_for(filter_tables_spec(), name);
            },
            _ => {},
        }
    }
}

/// The search text and the theme, region and progress chosen.
pub fn filter_choice(filters: &Vec<Filter>) -> (r: FilterChoice)
    requires
        selects_ok(filter_tables_spec(), seq_views(filters@)),
    ensures
        r@ == choice_spec(filter_tables_spec(), seq_views(filters@)),
        r@.picks.len() == 3,
{
    proof {
        lemma_choice_picks(seq_views(filters@));
    }
    apply_filters(filters, &filter_tables())
}

/// The listing page for the chosen theme (given percent-encoded), region and
/// progress, or the search page for the search text (given percent-encoded)
/// when there is one.
pub fn manga_list_url(choice: &FilterChoice, encoded_cate: &str, encoded_query: &str, page: i32) -> (r: String)
    requires
        choice@.picks.len() == 3,
    ensures
        r@ == if choice@.query.len() == 0 {
            BASE_URL@ + "/booklist?page="@ + dec_int(page as int) + "&cate="@ + encoded_cate@ + "&area="@ + choice@.picks[1]
                + "&end="@ + choice@.picks[2]
        } else {
            BASE_URL@ + "/search?keyword="@ + encoded_query@
        },
{
    let mut r = BASE_URL.to_owned();
    if choice.query.as_str().is_empty() {
        r.append("/booklist?page=");
        r.append(i32_to_string(page).as_str());
        r.append("&cate=");
        r.append(encoded_cate);
        r.append("&area=");
        r.append(choice.picks[1].as_str());
        r.append("&end=");
        r.append(choice.picks[2].as_str());
    } else {
        r.append("/search?keyword=");
        r.append(encoded_query);
    }
    r
}

/// The cover address inside a `background-image: url(...)` style.
pub open spec fn cover_of_style(style: Seq<char>) -> Seq<char> {
    replace_seq(replace_seq(trim_seq(style), "background-image: url("@, ""@), ")"@, ""@)
}

/// The cover address inside a `background-image: url(...)` style.
pub fn cover_from_style(style: &str) -> (r: String)
    ensures
        r@ == cover_of_style(style@),
{
    replace(replace(trim(style).as_str(), "background-image: url(", "").as_str(), ")", "")
}

/// How an entry of the listing (link `href`, cover `style`, link `title`)
/// becomes a comic.
pub struct Entries;

impl EntryRule for Entries {
    open spec fn entry_spec(&self, n: ListNodeView) -> MangaView {
        listed(replace_seq(n.link, "/book/"@, ""@), cover_of_style(n.image), n.label)
    }

    fn entry(&self, n: &ListNode) -> (m: Manga) {
        listed_manga(replace(n.link.as_str(), "/book/", ""), cover_from_style(n.image.as_str()), n.label.clone())
    }
}

/// A page of the listing; more pages follow unless a search was made.
pub fn manga_list(choice: &FilterChoice, nodes: &Vec<Option<ListNode>>) -> (r: MangaPageResult)
    ensures
        seq_views(r.manga@) == entries_spec(&Entries, opt_views(nodes@)),
        r.has_more == (choice@.query.len() == 0),
{
    MangaPageResult { manga: collect_entries(&Entries, nodes), has_more: choice.query.as_str().is_empty() }
}

/// The page of a comic.
pub fn manga_url(id: &str) -> (r: String)
    ensures
        r@ == BASE_URL@ + "/book/"@ + id@,
{
    let mut r = BASE_URL.to_owned();
    r.append("/book/");
    r.append(id);
    r
}

/// The comic described on its page.
pub open spec fn details_spec(
    id: Seq<char>,
    cover: Seq<char>,
    title: Seq<char>,
    author_text: Seq<char>,
    description: Seq<char>,
    categories: Seq<Seq<char>>,
    status_text: Seq<char>,
) -> MangaView {
    MangaView {
        id,
        cover,
        title,
        author: join_seq(split_seq(replace_seq(trim_seq(author_text), "作者："@, ""@), " "@), ", "@),
        artist: Seq::empty(),
        description: trim_seq(description),
        url: BASE_URL@ + "/book/"@ + id,
        categories: trimmed_nonempty(categories),
        status: status_by(trim_seq(status_text), "已完结"@, "连载中"@),
        nsfw: ContentRating::Safe,
        viewer: Viewer::Scroll,
    }
}

/// The comic described on its page.
pub fn manga_details(
    id: &str,
    cover: &str,
    title: &str,
    author_text: &str,
    description: &str,
    categories: &Vec<String>,
    status_text: &str,
) -> (r: Manga)
    ensures
        r@ == details_spec(id@, cover@, title@, author_text@, description@, views(categories@), status_text@),
{
    let r = Manga {
        id: id.to_owned(),
        cover: cover.to_owned(),
        title: title.to_owned(),
        author: split_join(replace(trim(author_text).as_str(), "作者：", "").as_str(), " ", ", "),
        artist: String::new(),
        description: trim(description),
        url: manga_url(id),
        categories: trim_nonempty(categories),
        status: status_by_markers(trim(status_text).as_str(), "已完结", "连载中"),
        nsfw: ContentRating::Safe,
        viewer: Viewer::Scroll,
    };
    assert(r@ =~= details_spec(id@, cover@, title@, author_text@, description@, views(categories@), status_text@));
    r
}

/// The reading page of a chapter.
pub fn chapter_url(id: &str) -> (r: String)
    ensures
        r@ == BASE_URL@ + "/chapter/"@ + id@,
{
    let mut r = BASE_URL.to_owned();
    r.append("/chapter/");
    r.append(id);
    r
}

/// How a chapter entry (link `href`, link text) becomes a chapter: the id is
/// the last part of the link.
pub struct Chapters;

impl ChapterRule for Chapters {
    open spec fn draft_spec(&self, n: ChapterNodeView) -> Option<DraftView> {
        let id = split_seq(n.link, "/"@).last();
        Some(DraftView { id, title: trim_seq(n.label), scanlator: Seq::empty(), url: BASE_URL@ + "/chapter/"@ + id })
    }

    fn draft(&self, n: &ChapterNode) -> (d: Option<ChapterDraft>) {
        let id = last_piece(n.link.as_str(), "/");
        let url = chapter_url(id.as_str());
        let d = ChapterDraft { id, title: trim(n.label.as_str()), scanlator: String::new(), url };
        assert(self.draft_spec(n@) == Some(d@));
        Some(d)
    }
}

/// The chapters of a comic, newest first.
pub fn chapter_list(nodes: &Vec<Option<ChapterNode>>) -> (r: Vec<Chapter>)
    ensures
        seq_views(r@) == newest_first(drafts_spec(&Chapters, opt_views(nodes@))),
{
    number_newest_first(&collect_drafts(&Chapters, nodes))
}

/// How an image gives its address: its `data-original`, trimmed.
pub struct Pages;

impl PageRule for Pages {
    open spec fn url_spec(&self, n: ImageNodeView) -> Seq<char> {
        trim_seq(n.primary)
    }

    fn url(&self, n: &ImageNode) -> (u: String) {
        trim(n.primary.as_str())
    }
}

/// The pages of a chapter, one per image that could be read.
pub fn page_list(nodes: &Vec<Option<ImageNode>>) -> (r: Vec<Page>)
    ensures
        seq_views(r@) == paged(urls_spec(&Pages, opt_views(nodes@))),
{
    collect_pages(&Pages, nodes)
}

/// Each chapter comes from the entry at position `number - 1`: its title is
/// that entry's link text, trimmed (whatever else the entry holds), its id
/// the last `/`-separated part of the entry's link, and its address the
/// chapter page of that id.
pub proof fn law_chapter_title_is_link_text(nodes: Seq<Option<ChapterNodeView>>)
    ensures
        forall|i: int| 0 <= i < newest_first(drafts_spec(&Chapters, nodes)).len() ==> {
            let c = #[trigger] newest_first(drafts_spec(&Chapters, nodes))[i];
            let k = c.number - 1;
            &&& 0 <= k < nodes.len()
            &&& nodes[k] is Some
            &&& c.title == trim_seq((nodes[k]->0).label)
            &&& c.id == split_seq((nodes[k]->0).link, "/"@).last()
            &&& c.url == BASE_URL@ + "/chapter/"@ + c.id
        },
{
    let drafts = drafts_spec(&Chapters, nodes);
    crate::laws::law_chapter_from_entry(drafts);
    assert forall|i: int| 0 <= i < newest_first(drafts).len() implies {
        let c = #[trigger] newest_first(drafts)[i];
        let k = c.number - 1;
        &&& 0 <= k < nodes.len()
        &&& nodes[k] is Some
        &&& c.title == trim_seq((nodes[k]->0).label)
        &&& c.id == split_seq((nodes[k]->0).link, "/"@).last()
        &&& c.url == BASE_URL@ + "/chapter/"@ + c.id
    } by {
        let k = newest_first(drafts)[i].number - 1;
        crate::laws::lemma_draft_from_node(&Chapters, nodes, k);
    }
}

/// Each page's address is the trimmed `data-original` of the image at the page's index.
pub proof fn law_page_address(nodes: Seq<Option<crate::model::ImageNodeView>>)
    ensures
        forall|i: int| 0 <= i < crate::assemble::paged(crate::assemble::urls_spec(&Pages, nodes)).len() ==> {
            let p = #[trigger] crate::assemble::paged(crate::assemble::urls_spec(&Pages, nodes))[i];
            let n = nodes[p.index as int]->0;
            &&& p.index < nodes.len()
            &&& nodes[p.index as int] is Some
            &&& p.url == crate::text::trim_seq(n.primary)
        },
{
    crate::laws::law_page_from_image(&Pages, nodes);
}

/// The comics of a listing are, in order, one per entry that could be read: its id is the entry's
/// link without `/book/`, its cover the entry's image address in its style, its title the entry's
/// title.
pub proof fn law_listing_entry_fields(nodes: Seq<Option<crate::model::ListNodeView>>)
    ensures
        crate::assemble::entries_spec(&Entries, nodes).len() == crate::model::somes(nodes).len(),
        forall|i: int| 0 <= i < crate::model::somes(nodes).len() ==> {
            let m = #[trigger] crate::assemble::entries_spec(&Entries, nodes)[i];
            let n = crate::model::somes(nodes)[i];
            &&& m.id == crate::text::replace_seq(n.link, "/book/"@, ""@)
            &&& m.cover == crate::kukanmanhua::cover_of_style(n.image)
            &&& m.title == n.label
        },
{
    crate::laws::law_entries_in_order(&Entries, nodes);
}

/// A comic is completed when its trimmed status text mentions 已完结, otherwise ongoing when it
/// mentions 连载中, otherwise of unknown status.
pub proof fn law_status_words(id: Seq<char>, cover: Seq<char>, title: Seq<char>, author_text: Seq<char>, description: Seq<char>, categories: Seq<Seq<char>>, status_text: Seq<char>)
    ensures
        ({
            let st = details_spec(id, cover, title, author_text, description, categories, status_text).status;
            let t = crate::text::trim_seq(status_text);
            &&& crate::text::contains_seq(t, "已完结"@) ==> st == crate::model::MangaStatus::Completed
            &&& (!crate::text::contains_seq(t, "已完结"@) && crate::text::contains_seq(t, "连载中"@)) ==> st == crate::model::MangaStatus::Ongoing
            &&& (!crate::text::contains_seq(t, "已完结"@) && !crate::text::contains_seq(t, "连载中"@)) ==> st == crate::model::MangaStatus::Unknown
        }),
{
}

/// Each select box maps option `i` to the `i`-th of the site's values for it; a lone selection sets
/// that box's value.
pub proof fn law_filter_options(i: i64)
    ensures
        0 <= i < 20 ==> crate::filters::choice_spec(filter_tables_spec(), seq![crate::model::FilterView::Select { name: "题材"@, index: i }]).picks[0]
            == seq!["全部"@, "校园"@, "搞笑"@, "后宫"@, "生活"@, "恋爱"@, "霸总"@, "热血"@, "科幻"@, "古风"@, "真人"@, "悬疑"@, "穿越"@, "耽美"@, "恐怖"@, "修真"@, "百合"@, "伦理"@, "女主"@, "神幻"@][i as int],
        0 <= i < 6 ==> crate::filters::choice_spec(filter_tables_spec(), seq![crate::model::FilterView::Select { name: "地区"@, index: i }]).picks[1]
            == seq!["-1"@, "5"@, "4"@, "3"@, "2"@, "1"@][i as int],
        0 <= i < 3 ==> crate::filters::choice_spec(filter_tables_spec(), seq![crate::model::FilterView::Select { name: "进度"@, index: i }]).picks[2]
            == seq!["-1"@, "2"@, "1"@][i as int],
{
    reveal_strlit("题材");
    reveal_strlit("地区");
    reveal_strlit("进度");
    let t = filter_tables_spec();
    let names = seq!["题材"@, "地区"@, "进度"@];
    assert forall|a: int, c: int| 0 <= a < names.len() && 0 <= c < names.len() && a != c implies #[trigger] names[a]
        != #[trigger] names[c] by {
        assert(names[a][0] != names[c][0]);
    }
    assert(forall|a: int| 0 <= a < t.len() ==> #[trigger] t[a].name == names[a]);
    crate::filters::lemma_table_hit(t, names, 0, 0);
    if 0 <= i < 20 {
        crate::filters::law_lone_selection(t, 0, i);
    }
    crate::filters::lemma_table_hit(t, names, 1, 0);
    if 0 <= i < 6 {
        crate::filters::law_lone_selection(t, 1, i);
    }
    crate::filters::lemma_table_hit(t, names, 2, 0);
    if 0 <= i < 3 {
        crate::filters::law_lone_selection(t, 2, i);
    }
}

/// A comic read from its page: the given id, cover and title; the author text trimmed, without
/// `作者：`, its space-separated names joined with `, `; no artist; the description trimmed; its page
/// address; rated safe and read by scrolling; every category non-empty and trimmed.
pub proof fn law_details_fields(id: Seq<char>, cover: Seq<char>, title: Seq<char>, author_text: Seq<char>, description: Seq<char>, categories: Seq<Seq<char>>, status_text: Seq<char>)
    ensures
        ({
            let r = details_spec(id, cover, title, author_text, description, categories, status_text);
            &&& r.id == id
            &&& r.cover == cover
            &&& r.title == title
            &&& r.author == crate::text::join_seq(crate::text::split_seq(crate::text::replace_seq(crate::text::trim_seq(author_text), "作者："@, ""@), " "@), ", "@)
            &&& r.artist.len() == 0
            &&& r.description == crate::text::trim_seq(description)
            &&& r.url == BASE_URL@ + "/book/"@ + id
            &&& r.nsfw == crate::model::ContentRating::Safe
            &&& r.viewer == crate::model::Viewer::Scroll
            &&& forall|i: int| 0 <= i < r.categories.len() ==> (#[trigger] r.categories[i]).len() > 0 && crate::text::trim_seq(r.categories[i]) == r.categories[i]
        }),
{
    crate::text::law_trimmed_nonempty_clean(categories);
}

/// A comic listed with the link `/book/<id>`, with an `<id>` that does not contain `/book/`, has
/// the id `<id>`, and its page is
/// the site address followed by that link.
pub proof fn law_listed_id_leads_to_page(id: Seq<char>, cover: Seq<char>, title: Seq<char>, author_text: Seq<char>, description: Seq<char>, categories: Seq<Seq<char>>, status_text: Seq<char>, image: Seq<char>, label: Seq<char>)
    requires
        !crate::text::contains_seq(id, "/book/"@),
    ensures
        Entries.entry_spec(crate::model::ListNodeView { link: "/book/"@ + id, image, label }).id == id,
        details_spec(id, cover, title, author_text, description, categories, status_text).url == BASE_URL@ + ("/book/"@ + id),
{
    reveal_strlit("/book/");
    reveal_strlit("");
    assert(""@ =~= Seq::<char>::empty());
    crate::laws::law_strip_prefix("/book/"@, id);
    assert(details_spec(id, cover, title, author_text, description, categories, status_text).url =~= BASE_URL@ + ("/book/"@ + id));
}

} // verus!
