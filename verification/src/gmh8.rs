//! The gmh8 source.
use vstd::prelude::*;
use crate::assemble::{
    collect_drafts, collect_entries, collect_pages, drafts_spec, entries_spec, newest_first, number_newest_first,
    paged, urls_spec, ChapterRule, EntryRule, PageRule,
};
use crate::filters::{apply_filters, choice_spec, select_table, selects_ok, selects_valid, FilterChoice, SelectTable, SelectTableView};
use crate::model::{
    listed, listed_manga, opt_views, seq_views, Chapter, ChapterDraft, ChapterNode, ChapterNodeView, ContentRating,
    DraftView, Filter, FilterView, ImageNode, ImageNodeView, ListNode, ListNodeView, Manga, MangaPageResult, MangaStatus,
    MangaView, Page, Viewer,
};
use crate::text::{
    dec_int, i32_to_string, join_seq, replace, replace_seq, split_join, split_seq, trim, trim_nonempty, trim_seq,
    trimmed_nonempty, views,
};

verus! {

/// The site's address.
pub const BASE_URL: &'static str = "https://www.gmh8.com";

/// The browser identity every request is sent with.
pub const USER_AGENT: &'static str = "Mozilla/5.0 (Macintosh; Intel Mac OS X 10_15_7) AppleWebKit/537.36 (KHTML, like Gecko) Chrome/123.0.0.0 Safari/537.36";

/// The select boxes of the listing: tag, progress, order.
pub open spec fn filter_tables_spec() -> Seq<SelectTableView> {
    seq![
        SelectTableView {
            name: "标签"@,
            values: seq![
                ""@, "6"@, "7"@, "8"@, "9"@, "10"@, "11"@, "12"@, "13"@, "14"@, "15"@, "16"@, "17"@, "18"@, "19"@,
                "20"@, "21"@, "22"@, "23"@, "24"@, "25"@, "26"@, "27"@, "28"@, "29"@, "30"@, "31"@, "48"@, "49"@,
                "50"@, "51"@, "52"@, "53"@, "294"@, "295"@, "296"@, "297"@, "298"@, "299"@, "300"@, "301"@, "302"@,
                "303"@,
            ],
        },
        SelectTableView { name: "进度"@, values: seq!["0"@, "1"@, "2"@] },
        SelectTableView { name: "排序"@, values: seq!["hits"@, "addtime"@] },
    ]
}

/// The select boxes of the listing.
pub fn filter_tables() -> (r: Vec<SelectTable>)
    ensures
        seq_views(r@) == filter_tables_spec(),
{
    let mut r: Vec<SelectTable> = Vec::new();
    r.push(select_table("标签", &[
        "", "6", "7", "8", "9", "10", "11", "12", "13", "14", "15", "16", "17", "18", "19", "20", "21", "22", "23",
        "24", "25", "26", "27", "28", "29", "30", "31", "48", "49", "50", "51", "52", "53", "294", "295", "296", "297",
        "298", "299", "300", "301", "302", "303",
    ]));
    r.push(select_table("进度", &["0", "1", "2"]));
    r.push(select_table("排序", &["hits", "addtime"]));
    assert(seq_views(r@) =~~= filter_tables_spec());
    r
}

/// Whether every selection names an option of its box.
pub fn filters_valid(filters: &Vec<Filter>) -> (r: bool)
    ensures
        r == selects_ok(filter_tables_spec(), seq_views(filters@)),
{
    selects_valid(filters, &filter_tables())
}

proof fn lemma_choice_picks(filters: Seq<FilterView>)
    ensures
        choice_spec(filter_tables_spec(), filters).picks.len() == 3,
    decreases filters.len(),
{
    if filters.len() > 0 {
        lemma_choice_picks(filters.drop_last());
        match filters.last() {
            FilterView::Select { name, index } => {
                crate::filters::lemma_table_for(filter_tables_spec(), name);
            },
            _ => {},
        }
    }
}

/// The search text and the tag, progress and order chosen.
pub fn filter_choice(filters: &Vec<Filter>) -> (r: FilterChoice)
    requires
        selects_ok(filter_tables_spec(), seq_views(filters@)),
    ensures
        r@ == choice_spec(filter_tables_spec(), seq_views(filters@)),
        r@.picks.len() == 3,
{
    proof {
        lemma_choice_picks(seq_views(filters@));
    }
    apply_filters(filters, &filter_tables())
}

/// The listing page for the chosen order, tag (left out when none) and
/// progress, or the search page for the search text (given percent-encoded)
/// when there is one.
pub fn manga_list_url(choice: &FilterChoice, encoded_query: &str, page: i32) -> (r: String)
    requires
        choice@.picks.len() == 3,
    ensures
        r@ == if choice@.query.len() == 0 {
            if choice@.picks[0].len() == 0 {
                BASE_URL@ + "/index.php/category/order/"@ + choice@.picks[2] + "/finish/"@ + choice@.picks[1] + "/page/"@
                    + dec_int(page as int)
            } else {
                BASE_URL@ + "/index.php/category/order/"@ + choice@.picks[2] + "/tags/"@ + choice@.picks[0] + "/finish/"@
                    + choice@.picks[1] + "/page/"@ + dec_int(page as int)
            }
        } else {
            BASE_URL@ + "/index.php/search?key="@ + encoded_query@
        },
{
    let mut r = BASE_URL.to_owned();
    if choice.query.as_str().is_empty() {
        r.append("/index.php/category/order/");
        r.append(choice.picks[2].as_str());
        if !choice.picks[0].as_str().is_empty() {
            r.append("/tags/");
            r.append(choice.picks[0].as_str());
        }
        r.append("/finish/");
        r.append(choice.picks[1].as_str());
        r.append("/page/");
        r.append(i32_to_string(page).as_str());
    } else {
        r.append("/index.php/search?key=");
        r.append(encoded_query);
    }
    r
}

/// How an entry of the listing (link `href`, image `data-original`, image
/// `alt`) becomes a comic.
pub struct Entries;

impl EntryRule for Entries {
    open spec fn entry_spec(&self, n: ListNodeView) -> MangaView {
        listed(replace_seq(n.link, "/index.php/comic/"@, ""@), replace_seq(trim_seq(n.image), " "@, ""@), n.label)
    }

    fn entry(&self, n: &ListNode) -> (m: Manga) {
        listed_manga(
            replace(n.link.as_str(), "/index.php/comic/", ""),
            replace(trim(n.image.as_str()).as_str(), " ", ""),
            n.label.clone(),
        )
    }
}

/// A page of the listing; more pages follow unless a search was made.
pub fn manga_list(choice: &FilterChoice, nodes: &Vec<Option<ListNode>>) -> (r: MangaPageResult)
    ensures
        seq_views(r.manga@) == entries_spec(&Entries, opt_views(nodes@)),
        r.has_more == (choice@.query.len() == 0),
{
    MangaPageResult { manga: collect_entries(&Entries, nodes), has_more: choice.query.as_str().is_empty() }
}

/// The page of a comic.
pub fn manga_url(id: &str) -> (r: String)
    ensures
        r@ == BASE_URL@ + "/index.php/comic/"@ + id@,
{
    let mut r = BASE_URL.to_owned();
    r.append("/index.php/comic/");
    r.append(id);
    r
}

/// The comic described on its page.
pub open spec fn details_spec(
    id: Seq<char>,
    cover: Seq<char>,
    title: Seq<char>,
    author_text: Seq<char>,
    description: Seq<char>,
    categories: Seq<Seq<char>>,
) -> MangaView {
    MangaView {
        id,
        cover: replace_seq(trim_seq(cover), " "@, ""@),
        title: trim_seq(title),
        author: join_seq(split_seq(trim_seq(author_text), " "@), ", "@),
        artist: Seq::empty(),
        description: trim_seq(description),
        url: BASE_URL@ + "/index.php/comic/"@ + id,
        categories: trimmed_nonempty(categories),
        status: MangaStatus::Unknown,
        nsfw: ContentRating::Safe,
        viewer: Viewer::Scroll,
    }
}

/// The comic described on its page.
pub fn manga_details(
    id: &str,
    cover: &str,
    title: &str,
    author_text: &str,
    description: &str,
    categories: &Vec<String>,
) -> (r: Manga)
    ensures
        r@ == details_spec(id@, cover@, title@, author_text@, description@, views(categories@)),
{
    let r = Manga {
        id: id.to_owned(),
        cover: replace(trim(cover).as_str(), " ", ""),
        title: trim(title),
        author: split_join(trim(author_text).as_str(), " ", ", "),
        artist: String::new(),
        description: trim(description),
        url: manga_url(id),
        categories: trim_nonempty(categories),
        status: MangaStatus::Unknown,
        nsfw: ContentRating::Safe,
        viewer: Viewer::Scroll,
    };
    assert(r@ =~= details_spec(id@, cover@, title@, author_text@, description@, views(categories@)));
    r
}

/// The reading page of a chapter.
pub fn chapter_url(id: &str) -> (r: String)
    ensures
        r@ == BASE_URL@ + "/index.php/chapter/"@ + id@,
{
    let mut r = BASE_URL.to_owned();
    r.append("/index.php/chapter/");
    r.append(id);
    r
}

/// How a chapter entry (link `href`, link text) becomes a chapter.
pub struct Chapters;

impl ChapterRule for Chapters {
    open spec fn draft_spec(&self, n: ChapterNodeView) -> Option<DraftView> {
        let id = replace_seq(n.link, "/index.php/chapter/"@, ""@);
        Some(DraftView { id, title: trim_seq(n.label), scanlator: Seq::empty(), url: BASE_URL@ + "/index.php/chapter/"@ + id })
    }

    fn draft(&self, n: &ChapterNode) -> (d: Option<ChapterDraft>) {
        let id = replace(n.link.as_str(), "/index.php/chapter/", "");
        let url = chapter_url(id.as_str());
        let d = ChapterDraft { id, title: trim(n.label.as_str()), scanlator: String::new(), url };
        assert(self.draft_spec(n@) == Some(d@));
        Some(d)
    }
}

/// The chapters of a comic, newest first.
pub fn chapter_list(nodes: &Vec<Option<ChapterNode>>) -> (r: Vec<Chapter>)
    ensures
        seq_views(r@) == newest_first(drafts_spec(&Chapters, opt_views(nodes@))),
{
    number_newest_first(&collect_drafts(&Chapters, nodes))
}

/// How an image gives its address: its `data-original`, trimmed and without
/// spaces.
pub struct Pages;

impl PageRule for Pages {
    open spec fn url_spec(&self, n: ImageNodeView) -> Seq<char> {
        replace_seq(trim_seq(n.primary), " "@, ""@)
    }

    fn url(&self, n: &ImageNode) -> (u: String) {
        replace(trim(n.primary.as_str()).as_str(), " ", "")
    }
}

/// The pages of a chapter, one per image that could be read.
pub fn page_list(nodes: &Vec<Option<ImageNode>>) -> (r: Vec<Page>)
    ensures
        seq_views(r@) == paged(urls_spec(&Pages, opt_views(nodes@))),
{
    collect_pages(&Pages, nodes)
}

/// Each page's address is the `data-original` of the image at the page's index, trimmed and without spaces.
pub proof fn law_page_address(nodes: Seq<Option<crate::model::ImageNodeView>>)
    ensures
        forall|i: int| 0 <= i < crate::assemble::paged(crate::assemble::urls_spec(&Pages, nodes)).len() ==> {
            let p = #[trigger] crate::assemble::paged(crate::assemble::urls_spec(&Pages, nodes))[i];
            let n = nodes[p.index as int]->0;
            &&& p.index < nodes.len()
            &&& nodes[p.index as int] is Some
            &&& p.url == crate::text::replace_seq(crate::text::trim_seq(n.primary), " "@, ""@)
        },
{
    crate::laws::law_page_from_image(&Pages, nodes);
}

/// Each chapter comes from the entry at position `number - 1`: its id is the entry's link without
/// `/index.php/chapter/`, its title the entry's trimmed link text, and its address the chapter page
/// of its id.
pub proof fn law_chapter_fields(nodes: Seq<Option<crate::model::ChapterNodeView>>)
    ensures
        forall|i: int| 0 <= i < crate::assemble::newest_first(crate::assemble::drafts_spec(&Chapters, nodes)).len() ==> {
            let c = #[trigger] crate::assemble::newest_first(crate::assemble::drafts_spec(&Chapters, nodes))[i];
            let k = c.number - 1;
            let n = nodes[k]->0;
            &&& 0 <= k < nodes.len()
            &&& nodes[k] is Some
            &&& c.id == crate::text::replace_seq(n.link, "/index.php/chapter/"@, ""@)
            &&& c.title == crate::text::trim_seq(n.label)
            &&& c.url == BASE_URL@ + "/index.php/chapter/"@ + c.id
            &&& c.scanlator.len() == 0
        },
{
    crate::laws::law_chapter_from_entry(crate::assemble::drafts_spec(&Chapters, nodes));
    assert forall|i: int| 0 <= i < crate::assemble::newest_first(crate::assemble::drafts_spec(&Chapters, nodes)).len() implies {
            let c = #[trigger] crate::assemble::newest_first(crate::assemble::drafts_spec(&Chapters, nodes))[i];
            let k = c.number - 1;
            let n = nodes[k]->0;
            &&& 0 <= k < nodes.len()
            &&& nodes[k] is Some
            &&& c.id == crate::text::replace_seq(n.link, "/index.php/chapter/"@, ""@)
            &&& c.title == crate::text::trim_seq(n.label)
            &&& c.url == BASE_URL@ + "/index.php/chapter/"@ + c.id
            &&& c.scanlator.len() == 0
        } by {
        let c = crate::assemble::newest_first(crate::assemble::drafts_spec(&Chapters, nodes))[i];
        let k = c.number - 1;
        crate::laws::lemma_draft_from_node(&Chapters, nodes, k);
    }
}

/// The comics of a listing are, in order, one per entry that could be read: its id is the entry's
/// link without `/index.php/comic/`, its cover the entry's image trimmed and without spaces, its
/// title the entry's title.
pub proof fn law_listing_entry_fields(nodes: Seq<Option<crate::model::ListNodeView>>)
    ensures
        crate::assemble::entries_spec(&Entries, nodes).len() == crate::model::somes(nodes).len(),
        forall|i: int| 0 <= i < crate::model::somes(nodes).len() ==> {
            let m = #[trigger] crate::assemble::entries_spec(&Entries, nodes)[i];
            let n = crate::model::somes(nodes)[i];
            &&& m.id == crate::text::replace_seq(n.link, "/index.php/comic/"@, ""@)
            &&& m.cover == crate::text::replace_seq(crate::text::trim_seq(n.image), " "@, ""@)
            &&& m.title == n.label
        },
{
    crate::laws::law_entries_in_order(&Entries, nodes);
}

/// Each select box maps option `i` to the `i`-th of the site's values for it; a lone selection sets
/// that box's value.
pub proof fn law_filter_options(i: i64)
    ensures
        0 <= i < 43 ==> crate::filters::choice_spec(filter_tables_spec(), seq![crate::model::FilterView::Select { name: "标签"@, index: i }]).picks[0]
            == seq![""@, "6"@, "7"@, "8"@, "9"@, "10"@, "11"@, "12"@, "13"@, "14"@, "15"@, "16"@, "17"@, "18"@, "19"@, "20"@, "21"@, "22"@, "23"@, "24"@, "25"@, "26"@, "27"@, "28"@, "29"@, "30"@, "31"@, "48"@, "49"@, "50"@, "51"@, "52"@, "53"@, "294"@, "295"@, "296"@, "297"@, "298"@, "299"@, "300"@, "301"@, "302"@, "303"@][i as int],
        0 <= i < 3 ==> crate::filters::choice_spec(filter_tables_spec(), seq![crate::model::FilterView::Select { name: "进度"@, index: i }]).picks[1]
            == seq!["0"@, "1"@, "2"@][i as int],
        0 <= i < 2 ==> crate::filters::choice_spec(filter_tables_spec(), seq![crate::model::FilterView::Select { name: "排序"@, index: i }]).picks[2]
            == seq!["hits"@, "addtime"@][i as int],
{
    reveal_strlit("标签");
    reveal_strlit("进度");
    reveal_strlit("排序");
    let t = filter_tables_spec();
    let names = seq!["标签"@, "进度"@, "排序"@];
    assert forall|a: int, c: int| 0 <= a < names.len() && 0 <= c < names.len() && a != c implies #[trigger] names[a]
        != #[trigger] names[c] by {
        assert(names[a][0] != names[c][0]);
    }
    assert(forall|a: int| 0 <= a < t.len() ==> #[trigger] t[a].name == names[a]);
    crate::filters::lemma_table_hit(t, names, 0, 0);
    if 0 <= i < 43 {
        crate::filters::law_lone_selection(t, 0, i);
    }
    crate::filters::lemma_table_hit(t, names, 1, 0);
    if 0 <= i < 3 {
        crate::filters::law_lone_selection(t, 1, i);
    }
    crate::filters::lemma_table_hit(t, names, 2, 0);
    if 0 <= i < 2 {
        crate::filters::law_lone_selection(t, 2, i);
    }
}

/// A comic read from its page: the given id; the cover trimmed and without spaces; the title and
/// description trimmed; the space-separated authors joined with `, `; no artist; its page address;
/// status unknown; rated safe and read by scrolling; every category non-empty and trimmed.
pub proof fn law_details_fields(id: Seq<char>, cover: Seq<char>, title: Seq<char>, author_text: Seq<char>, description: Seq<char>, categories: Seq<Seq<char>>)
    ensures
        ({
            let r = details_spec(id, cover, title, author_text, description, categories);
            &&& r.id == id
            &&& r.cover == crate::text::replace_seq(crate::text::trim_seq(cover), " "@, ""@)
            &&& r.title == crate::text::trim_seq(title)
            &&& r.author == crate::text::join_seq(crate::text::split_seq(crate::text::trim_seq(author_text), " "@), ", "@)
            &&& r.artist.len() == 0
            &&& r.description == crate::text::trim_seq(description)
            &&& r.url == BASE_URL@ + "/index.php/comic/"@ + id
            &&& r.status == crate::model::MangaStatus::Unknown
            &&& r.nsfw == crate::model::ContentRating::Safe
            &&& r.viewer == crate::model::Viewer::Scroll
            &&& forall|i: int| 0 <= i < r.categories.len() ==> (#[trigger] r.categories[i]).len() > 0 && crate::text::trim_seq(r.categories[i]) == r.categories[i]
        }),
{
    crate::text::law_trimmed_nonempty_clean(categories);
}

/// A comic listed with the link `/index.php/comic/<id>`, with an `<id>` that does not contain
/// `/index.php/comic/`, has the id `<id>`, and its page is
/// the site address followed by that link.
pub proof fn law_listed_id_leads_to_page(id: Seq<char>, cover: Seq<char>, title: Seq<char>, author_text: Seq<char>, description: Seq<char>, categories: Seq<Seq<char>>, image: Seq<char>, label: Seq<char>)
    requires
        !crate::text::contains_seq(id, "/index.php/comic/"@),
    ensures
        Entries.entry_spec(crate::model::ListNodeView { link: "/index.php/comic/"@ + id, image, label }).id == id,
        details_spec(id, cover, title, author_text, description, categories).url == BASE_URL@ + ("/index.php/comic/"@ + id),
{
    reveal_strlit("/index.php/comic/");
    reveal_strlit("");
    assert(""@ =~= Seq::<char>::empty());
    crate::laws::law_strip_prefix("/index.php/comic/"@, id);
    assert(details_spec(id, cover, title, author_text, description, categories).url =~= BASE_URL@ + ("/index.php/comic/"@ + id));
}

} // verus!
