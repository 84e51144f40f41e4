//! The qiruiyaoye source.
use vstd::prelude::*;
use crate::assemble::{
    collect_drafts, collect_entries, collect_pages, drafts_spec, entries_spec, newest_first, number_newest_first,
    paged, reversed_drafts, status_by, status_by_markers, urls_spec, ChapterRule, EntryRule, PageRule,
};
use crate::filters::{apply_filters, choice_spec, select_table, selects_ok, selects_valid, FilterChoice, SelectTable, SelectTableView};
use crate::kukanmanhua::{cover_from_style, cover_of_style};
use crate::model::{
    listed, listed_manga, opt_views, seq_views, Chapter, ChapterDraft, ChapterNode, ChapterNodeView, ContentRating,
    DraftView, Filter, FilterView, ImageNode, ImageNodeView, ListNode, ListNodeView, Manga, MangaPageResult, MangaStatus,
    MangaView, Page, Viewer,
};
use crate::text::{
    concatenate, contains_seq, dec_int, i32_to_string, join_seq, last_piece, replace, replace_seq, split_join, split_seq, trim,
    trim_nonempty, trim_seq, trimmed_nonempty, views,
};

verus! {

/// The site's address.
pub const BASE_URL: &'static str = "https://www.qiruiyaoye.cn";

/// The select boxes of the listing: tag, progress.
pub open spec fn filter_tables_spec() -> Seq<SelectTableView> {
    seq![
        SelectTableView {
            name: "标签"@,
            values: seq![
                ""@, "1"@, "2"@, "3"@, "4"@, "5"@, "6"@, "7"@, "8"@, "9"@, "10"@, "11"@, "12"@, "13"@, "14"@, "15"@,
                "16"@, "17"@, "18"@, "19"@, "20"@, "21"@, "22"@, "23"@, "24"@,
            ],
        },
        SelectTableView { name: "进度"@, values: seq![""@, "0"@, "1"@] },
    ]
}

/// The select boxes of the listing.
pub fn filter_tables() -> (r: Vec<SelectTable>)
    ensures
        seq_views(r@) == filter_tables_spec(),
{
    let mut r: Vec<SelectTable> = Vec::new();
    r.push(select_table("标签", &[
        "", "1", "2", "3", "4", "5", "6", "7", "8", "9", "10", "11", "12", "13", "14", "15", "16", "17", "18", "19", "20",
        "21", "22", "23", "24",
    ]));
    r.push(select_table("进度", &["", "0", "1"]));
    assert(seq_views(r@) =~~= filter_tables_spec());
    r
}

/// Whether every selection names an option of its box.
pub fn filters_valid(filters: &Vec<Filter>) -> (r: bool)
    ensures
        r == selects_ok(filter_tables_spec(), seq_views(filters@)),
{
    selects_valid(filters, &filter_tables())
}

proof fn lemma_choice_picks(filters: Seq<FilterView>)
    ensures
        choice_spec(filter_tables_spec(), filters).picks.len() == 2,
    decreases filters.len(),
{
    if filters.len() > 0 {
        lemma_choice_picks(filters.drop_last());
        match filters.last() {
            FilterView::Select { name, index } => {
                crate::filters::lemma_table_for(filter_tables_spec(), name);
            },
            _ => {},
        }
    }
}

/// The search text and the tag and progress chosen.
pub fn filter_choice(filters: &Vec<Filter>) -> (r: FilterChoice)
    requires
        selects_ok(filter_tables_spec(), seq_views(filters@)),
    ensures
        r@ == choice_spec(filter_tables_spec(), seq_views(filters@)),
        r@.picks.len() == 2,
{
    proof {
        lemma_choice_picks(seq_views(filters@));
    }
    apply_filters(filters, &filter_tables())
}

/// The listing page for the chosen tag and progress (left out when none),
/// or the search page for the search text (given percent-encoded) when
/// there is one.
pub fn manga_list_url(choice: &FilterChoice, encoded_query: &str, page: i32) -> (r: String)
    requires
        choice@.picks.len() == 2,
    ensures
        r@ == if choice@.query.len() == 0 {
            if choice@.picks[1].len() == 0 {
                BASE_URL@ + "/category/"@ + choice@.picks[0] + "/page/"@ + dec_int(page as int) + ".html"@
            } else {
                BASE_URL@ + "/category/"@ + choice@.picks[0] + "/end/"@ + choice@.picks[1] + "/page/"@
                    + dec_int(page as int) + ".html"@
            }
        } else {
            BASE_URL@ + "/search/"@ + encoded_query@ + "/"@
        },
{
    let mut r = BASE_URL.to_owned();
    if choice.query.as_str().is_empty() {
        r.append("/category/");
        r.append(choice.picks[0].as_str());
        if !choice.picks[1].as_str().is_empty() {
            r.append("/end/");
            r.append(choice.picks[1].as_str());
        }
        r.append("/page/");
        r.append(i32_to_string(page).as_str());
        r.append(".html");
    } else {
        r.append("/search/");
        r.append(encoded_query);
        r.append("/");
    }
    r
}

/// How an entry of the listing (link `href`, cover `style`, link `title`)
/// becomes a comic; the cover address is relative to the site.
pub struct Entries;

impl EntryRule for Entries {
    open spec fn entry_spec(&self, n: ListNodeView) -> MangaView {
        listed(replace_seq(replace_seq(n.link, "/book/"@, ""@), "/"@, ""@), BASE_URL@ + cover_of_style(n.image), n.label)
    }

    fn entry(&self, n: &ListNode) -> (m: Manga) {
        listed_manga(
            replace(replace(n.link.as_str(), "/book/", "").as_str(), "/", ""),
            concatenate(BASE_URL, cover_from_style(n.image.as_str()).as_str()),
            n.label.clone(),
        )
    }
}

/// A page of the listing; more pages follow unless a search was made.
pub fn manga_list(choice: &FilterChoice, nodes: &Vec<Option<ListNode>>) -> (r: MangaPageResult)
    ensures
        seq_views(r.manga@) == entries_spec(&Entries, opt_views(nodes@)),
        r.has_more == (choice@.query.len() == 0),
{
    MangaPageResult { manga: collect_entries(&Entries, nodes), has_more: choice.query.as_str().is_empty() }
}

/// The page of a comic.
pub fn manga_url(id: &str) -> (r: String)
    ensures
        r@ == BASE_URL@ + "/book/"@ + id@ + "/"@,
{
    let mut r = BASE_URL.to_owned();
    r.append("/book/");
    r.append(id);
    r.append("/");
    r
}

/// The comic described on its page; the cover address is relative to the
/// site.
pub open spec fn details_spec(
    id: Seq<char>,
    cover: Seq<char>,
    title: Seq<char>,
    author_text: Seq<char>,
    description: Seq<char>,
    categories: Seq<Seq<char>>,
    status_text: Seq<char>,
) -> MangaView {
    MangaView {
        id,
        cover: BASE_URL@ + cover,
        title,
        author: join_seq(split_seq(trim_seq(author_text), " "@), ", "@),
        artist: Seq::empty(),
        description: trim_seq(description),
        url: BASE_URL@ + "/book/"@ + id + "/"@,
        categories: trimmed_nonempty(categories),
        status: status_by(trim_seq(status_text), "已完结"@, "连载中"@),
        nsfw: ContentRating::Safe,
        viewer: Viewer::Scroll,
    }
}

/// The comic described on its page.
pub fn manga_details(
    id: &str,
    cover: &str,
    title: &str,
    author_text: &str,
    description: &str,
    categories: &Vec<String>,
    status_text: &str,
) -> (r: Manga)
    ensures
        r@ == details_spec(id@, cover@, title@, author_text@, description@, views(categories@), status_text@),
{
    let r = Manga {
        id: id.to_owned(),
        cover: concatenate(BASE_URL, cover),
        title: title.to_owned(),
        author: split_join(trim(author_text).as_str(), " ", ", "),
        artist: String::new(),
        description: trim(description),
        url: manga_url(id),
        categories: trim_nonempty(categories),
        status: status_by_markers(trim(status_text).as_str(), "已完结", "连载中"),
        nsfw: ContentRating::Safe,
        viewer: Viewer::Scroll,
    };
    assert(r@ =~= details_spec(id@, cover@, title@, author_text@, description@, views(categories@), status_text@));
    r
}

/// The reading page of a chapter.
pub fn chapter_url(manga_id: &str, chapter_id: &str) -> (r: String)
    ensures
        r@ == BASE_URL@ + "/chapter/"@ + manga_id@ + "/"@ + chapter_id@ + ".html"@,
{
    let mut r = BASE_URL.to_owned();
    r.append("/chapter/");
    r.append(manga_id);
    r.append("/");
    r.append(chapter_id);
    r.append(".html");
    r
}

/// A chapter title without spaces and without the site's icon character.
pub open spec fn clean_title(text: Seq<char>) -> Seq<char> {
    replace_seq(replace_seq(trim_seq(text), " "@, ""@), "\u{e66e}"@, ""@)
}

/// How a chapter entry (link `href`, link text) of a comic becomes a
/// chapter: the id is the last part of the link without `.html`.
pub struct Chapters {
    pub manga_id: String,
}

impl ChapterRule for Chapters {
    open spec fn draft_spec(&self, n: ChapterNodeView) -> Option<DraftView> {
        let id = replace_seq(split_seq(n.link, "/"@).last(), ".html"@, ""@);
        Some(DraftView {
            id,
            title: clean_title(n.label),
            scanlator: Seq::empty(),
            url: BASE_URL@ + "/chapter/"@ + self.manga_id@ + "/"@ + id + ".html"@,
        })
    }

    fn draft(&self, n: &ChapterNode) -> (d: Option<ChapterDraft>) {
        let id = replace(last_piece(n.link.as_str(), "/").as_str(), ".html", "");
        let url = chapter_url(self.manga_id.as_str(), id.as_str());
        let title = replace(replace(trim(n.label.as_str()).as_str(), " ", "").as_str(), "\u{e66e}", "");
        let d = ChapterDraft { id, title, scanlator: String::new(), url };
        assert(self.draft_spec(n@) == Some(d@));
        Some(d)
    }
}

/// The chapters of a comic in page order; they are numbered from the end of
/// the page, so the last entry is chapter 1.
pub fn chapter_list(rule: &Chapters, nodes: &Vec<Option<ChapterNode>>) -> (r: Vec<Chapter>)
    ensures
        seq_views(r@) == newest_first(drafts_spec(rule, opt_views(nodes@)).reverse()),
{
    let drafts = collect_drafts(rule, nodes);
    number_newest_first(&reversed_drafts(drafts))
}

/// The reading page of a chapter, where its images are.
pub fn page_list_url(manga_id: &str, chapter_id: &str) -> (r: String)
    ensures
        r@ == BASE_URL@ + "/chapter/"@ + manga_id@ + "/"@ + chapter_id@ + ".html"@,
{
    chapter_url(manga_id, chapter_id)
}

/// How an image gives its address: its `data-original`, trimmed.
pub struct Pages;

impl PageRule for Pages {
    open spec fn url_spec(&self, n: ImageNodeView) -> Seq<char> {
        trim_seq(n.primary)
    }

    fn url(&self, n: &ImageNode) -> (u: String) {
        trim(n.primary.as_str())
    }
}

/// The pages of a chapter, one per image that could be read.
pub fn page_list(nodes: &Vec<Option<ImageNode>>) -> (r: Vec<Page>)
    ensures
        seq_views(r@) == paged(urls_spec(&Pages, opt_views(nodes@))),
{
    collect_pages(&Pages, nodes)
}

/// Each page's address is the trimmed `data-original` of the image at the
/// page's index, whatever the image's other attribute holds.
pub proof fn law_page_url_is_data_original(nodes: Seq<Option<ImageNodeView>>)
    ensures
        forall|i: int| 0 <= i < paged(urls_spec(&Pages, nodes)).len() ==> (#[trigger] paged(urls_spec(&Pages, nodes))[i]).index
            < nodes.len() && nodes[paged(urls_spec(&Pages, nodes))[i].index as int] is Some
            && paged(urls_spec(&Pages, nodes))[i].url == trim_seq(
            (nodes[paged(urls_spec(&Pages, nodes))[i].index as int]->0).primary,
        ),
{
    crate::laws::law_page_from_image(&Pages, nodes);
}

/// A comic is completed when its trimmed status text mentions 已完结,
/// otherwise ongoing when it mentions 连载中, otherwise of unknown status.
pub proof fn law_status_words(
    id: Seq<char>,
    cover: Seq<char>,
    title: Seq<char>,
    author_text: Seq<char>,
    description: Seq<char>,
    categories: Seq<Seq<char>>,
    status_text: Seq<char>,
)
    ensures
        ({
            let st = details_spec(id, cover, title, author_text, description, categories, status_text).status;
            let t = trim_seq(status_text);
            &&& contains_seq(t, "已完结"@) ==> st == MangaStatus::Completed
            &&& (!contains_seq(t, "已完结"@) && contains_seq(t, "连载中"@)) ==> st == MangaStatus::Ongoing
            &&& (!contains_seq(t, "已完结"@) && !contains_seq(t, "连载中"@)) ==> st == MangaStatus::Unknown
        }),
{
}

/// Chapters are numbered from the end of the page: each comes from the entry `number` places from
/// the end; its id is the last `/`-separated part of the entry's link without `.html`, its title
/// the entry's trimmed text without spaces or the icon character, and its address the comic's
/// chapter page of that id.
pub proof fn law_chapter_fields(rule: Chapters, nodes: Seq<Option<crate::model::ChapterNodeView>>)
    ensures
        forall|i: int| 0 <= i < crate::assemble::newest_first(crate::assemble::drafts_spec(&rule, nodes).reverse()).len() ==> {
            let c = #[trigger] crate::assemble::newest_first(crate::assemble::drafts_spec(&rule, nodes).reverse())[i];
            let k = nodes.len() - c.number;
            let n = nodes[k]->0;
            &&& 0 <= k < nodes.len()
            &&& nodes[k] is Some
            &&& c.id == crate::text::replace_seq(crate::text::split_seq(n.link, "/"@).last(), ".html"@, ""@)
            &&& c.title == crate::text::replace_seq(crate::text::replace_seq(crate::text::trim_seq(n.label), " "@, ""@), "\u{e66e}"@, ""@)
            &&& c.url == BASE_URL@ + "/chapter/"@ + rule.manga_id@ + "/"@ + c.id + ".html"@
            &&& c.scanlator.len() == 0
        },
{
    let drafts = crate::assemble::drafts_spec(&rule, nodes);
    crate::laws::law_chapter_from_entry(crate::assemble::drafts_spec(&rule, nodes).reverse());
    assert forall|i: int| 0 <= i < crate::assemble::newest_first(crate::assemble::drafts_spec(&rule, nodes).reverse()).len() implies {
            let c = #[trigger] crate::assemble::newest_first(crate::assemble::drafts_spec(&rule, nodes).reverse())[i];
            let k = nodes.len() - c.number;
            let n = nodes[k]->0;
            &&& 0 <= k < nodes.len()
            &&& nodes[k] is Some
            &&& c.id == crate::text::replace_seq(crate::text::split_seq(n.link, "/"@).last(), ".html"@, ""@)
            &&& c.title == crate::text::replace_seq(crate::text::replace_seq(crate::text::trim_seq(n.label), " "@, ""@), "\u{e66e}"@, ""@)
            &&& c.url == BASE_URL@ + "/chapter/"@ + rule.manga_id@ + "/"@ + c.id + ".html"@
            &&& c.scanlator.len() == 0
        } by {
        let c = crate::assemble::newest_first(crate::assemble::drafts_spec(&rule, nodes).reverse())[i];
        let k = nodes.len() - c.number;
        assert(drafts.reverse()[c.number - 1] == drafts[k]);
        crate::laws::lemma_draft_from_node(&rule, nodes, k);
    }
}

/// The comics of a listing are, in order, one per entry that could be read: its id is the entry's
/// link without `/book/` and `/`, its cover the entry's site address followed by the image address
/// in its style, its title the entry's title.
pub proof fn law_listing_entry_fields(nodes: Seq<Option<crate::model::ListNodeView>>)
    ensures
        crate::assemble::entries_spec(&Entries, nodes).len() == crate::model::somes(nodes).len(),
        forall|i: int| 0 <= i < crate::model::somes(nodes).len() ==> {
            let m = #[trigger] crate::assemble::entries_spec(&Entries, nodes)[i];
            let n = crate::model::somes(nodes)[i];
            &&& m.id == crate::text::replace_seq(crate::text::replace_seq(n.link, "/book/"@, ""@), "/"@, ""@)
            &&& m.cover == BASE_URL@ + crate::kukanmanhua::cover_of_style(n.image)
            &&& m.title == n.label
        },
{
    crate::laws::law_entries_in_order(&Entries, nodes);
}

/// Each select box maps option `i` to the `i`-th of the site's values for it; a lone selection sets
/// that box's value.
pub proof fn law_filter_options(i: i64)
    ensures
        0 <= i < 25 ==> crate::filters::choice_spec(filter_tables_spec(), seq![crate::model::FilterView::Select { name: "标签"@, index: i }]).picks[0]
            == seq![""@, "1"@, "2"@, "3"@, "4"@, "5"@, "6"@, "7"@, "8"@, "9"@, "10"@, "11"@, "12"@, "13"@, "14"@, "15"@, "16"@, "17"@, "18"@, "19"@, "20"@, "21"@, "22"@, "23"@, "24"@][i as int],
        0 <= i < 3 ==> crate::filters::choice_spec(filter_tables_spec(), seq![crate::model::FilterView::Select { name: "进度"@, index: i }]).picks[1]
            == seq![""@, "0"@, "1"@][i as int],
{
    reveal_strlit("标签");
    reveal_strlit("进度");
    let t = filter_tables_spec();
    let names = seq!["标签"@, "进度"@];
    assert forall|a: int, c: int| 0 <= a < names.len() && 0 <= c < names.len() && a != c implies #[trigger] names[a]
        != #[trigger] names[c] by {
        assert(names[a][0] != names[c][0]);
    }
    assert(forall|a: int| 0 <= a < t.len() ==> #[trigger] t[a].name == names[a]);
    crate::filters::lemma_table_hit(t, names, 0, 0);
    if 0 <= i < 25 {
        crate::filters::law_lone_selection(t, 0, i);
    }
    crate::filters::lemma_table_hit(t, names, 1, 0);
    if 0 <= i < 3 {
        crate::filters::law_lone_selection(t, 1, i);
    }
}

/// A comic read from its page: the given id and title; the cover relative to the site; the space-
/// separated authors joined with `, `; no artist; the description trimmed; its page address; rated
/// safe and read by scrolling; every category non-empty and trimmed.
pub proof fn law_details_fields(id: Seq<char>, cover: Seq<char>, title: Seq<char>, author_text: Seq<char>, description: Seq<char>, categories: Seq<Seq<char>>, status_text: Seq<char>)
    ensures
        ({
            let r = details_spec(id, cover, title, author_text, description, categories, status_text);
            &&& r.id == id
            &&& r.cover == BASE_URL@ + cover
            &&& r.title == title
            &&& r.author == crate::text::join_seq(crate::text::split_seq(crate::text::trim_seq(author_text), " "@), ", "@)
            &&& r.artist.len() == 0
            &&& r.description == crate::text::trim_seq(description)
            &&& r.url == BASE_URL@ + "/book/"@ + id + "/"@
            &&& r.nsfw == crate::model::ContentRating::Safe
            &&& r.viewer == crate::model::Viewer::Scroll
            &&& forall|i: int| 0 <= i < r.categories.len() ==> (#[trigger] r.categories[i]).len() > 0 && crate::text::trim_seq(r.categories[i]) == r.categories[i]
        }),
{
    crate::text::law_trimmed_nonempty_clean(categories);
}

/// A comic listed with the link `/book/<id>/`, with an `<id>` free of `/`, has the id `<id>`, and its page is
/// the site address followed by that link.
pub proof fn law_listed_id_leads_to_page(id: Seq<char>, cover: Seq<char>, title: Seq<char>, author_text: Seq<char>, description: Seq<char>, categories: Seq<Seq<char>>, status_text: Seq<char>, image: Seq<char>, label: Seq<char>)
    requires
        !crate::text::contains_seq(id, "/"@),
    ensures
        Entries.entry_spec(crate::model::ListNodeView { link: "/book/"@ + id + "/"@, image, label }).id == id,
        details_spec(id, cover, title, author_text, description, categories, status_text).url == BASE_URL@ + ("/book/"@ + id + "/"@),
{
    reveal_strlit("/book/");
    reveal_strlit("");
    assert(""@ =~= Seq::<char>::empty());
    assert("/book/"@[0] == '/');
    crate::laws::law_strip_slashed("/book/"@, id);
    assert(details_spec(id, cover, title, author_text, description, categories, status_text).url =~= BASE_URL@ + ("/book/"@ + id + "/"@));
}

} // verus!
