//! The 52jmd source. Its address is a user setting, passed in as `base`.
use vstd::prelude::*;
use crate::assemble::{
    collect_drafts, collect_entries, collect_pages, drafts_spec, entries_spec, newest_first, number_newest_first,
    paged, status_by, status_by_markers, urls_spec, ChapterRule, EntryRule, PageRule,
};
use crate::filters::{apply_filters, choice_spec, select_table, selects_ok, selects_valid, FilterChoice, SelectTable, SelectTableView};
use crate::model::{
    listed, listed_manga, opt_views, seq_views, Chapter, ChapterDraft, ChapterNode, ChapterNodeView, ContentRating,
    DraftView, Filter, FilterView, ImageNode, ImageNodeView, ListNode, ListNodeView, Manga, MangaPageResult, MangaView,
    Page, Viewer,
};
use crate::text::{
    dec_int, i32_to_string, join, join_seq, last_piece, replace, replace_seq, split_join, split_seq, trim,
    trim_nonempty, trim_seq, trimmed_nonempty, views,
};

verus! {

/// The browser identity every request is sent with.
pub const USER_AGENT: &'static str = "Mozilla/5.0 (iPhone; CPU iPhone OS 16_6_1 like Mac OS X) AppleWebKit/605.1.15 (KHTML, like Gecko) Version/16.6 Mobile/15E148 Safari/604.1";

/// The select boxes of the listing: catalog, progress, order.
pub open spec fn filter_tables_spec() -> Seq<SelectTableView> {
    seq![
        SelectTableView { name: "分类"@, values: seq!["all"@, "韩漫"@, "日漫"@, "3D漫画"@, "真人"@, "短篇"@] },
        SelectTableView { name: "进度"@, values: seq!["all"@, "serialized"@, "completed"@] },
        SelectTableView { name: "排序"@, values: seq!["hits"@, "time"@] },
    ]
}

/// The select boxes of the listing.
pub fn filter_tables() -> (r: Vec<SelectTable>)
    ensures
        seq_views(r@) == filter_tables_spec(),
{
    let mut r: Vec<SelectTable> = Vec::new();
    r.push(select_table("分类", &["all", "韩漫", "日漫", "3D漫画", "真人", "短篇"]));
    r.push(select_table("进度", &["all", "serialized", "completed"]));
    r.push(select_table("排序", &["hits", "time"]));
    assert(seq_views(r@) =~~= filter_tables_spec());
    r
}

/// Whether every selection names an option of its box.
pub fn filters_valid(filters: &Vec<Filter>) -> (r: bool)
    ensures
        r == selects_ok(filter_tables_spec(), seq_views(filters@)),
{
    selects_valid(filters, &filter_tables())
}

proof fn lemma_choice_picks(filters: Seq<FilterView>)
    ensures
        choice_spec(filter_tables_spec(), filters).picks.len() == 3,
    decreases filters.len(),
{
    if filters.len() > 0 {
        lemma_choice_picks(filters.drop_last());
        match filters.last() {
            FilterView::Select { name, index } => {
                crate::filters::lemma_table_for(filter_tables_spec(), name);
            },
            _ => {},
        }
    }
}

/// The search text and the catalog, progress and order chosen.
pub fn filter_choice(filters: &Vec<Filter>) -> (r: FilterChoice)
    requires
        selects_ok(filter_tables_spec(), seq_views(filters@)),
    ensures
        r@ == choice_spec(filter_tables_spec(), seq_views(filters@)),
        r@.picks.len() == 3,
{
    proof {
        lemma_choice_picks(seq_views(filters@));
    }
    apply_filters(filters, &filter_tables())
}

/// The listing page for the chosen catalog (given percent-encoded), order
/// and progress, or the search page for the search text (given
/// percent-encoded) when there is one.
pub fn manga_list_url(base: &str, choice: &FilterChoice, encoded_catalog: &str, encoded_query: &str, page: i32) -> (r: String)
    requires
        choice@.picks.len() == 3,
    ensures
        r@ == if choice@.query.len() == 0 {
            base@ + "/catalog/"@ + encoded_catalog@ + "/ob/"@ + choice@.picks[2] + "/st/"@ + choice@.picks[1] + "/page/"@
                + dec_int(page as int)
        } else {
            base@ + "/cata.php?key="@ + encoded_query@
        },
{
    let mut r = base.to_owned();
    if choice.query.as_str().is_empty() {
        r.append("/catalog/");
        r.append(encoded_catalog);
        r.append("/ob/");
        r.append(choice.picks[2].as_str());
        r.append("/st/");
        r.append(choice.picks[1].as_str());
        r.append("/page/");
        r.append(i32_to_string(page).as_str());
    } else {
        r.append("/cata.php?key=");
        r.append(encoded_query);
    }
    r
}

/// How an entry of the listing (link `href`, image `data-original`, link
/// `title`) becomes a comic.
pub struct Entries;

impl EntryRule for Entries {
    open spec fn entry_spec(&self, n: ListNodeView) -> MangaView {
        listed(replace_seq(n.link, "/manga/"@, ""@), n.image, n.label)
    }

    fn entry(&self, n: &ListNode) -> (m: Manga) {
        listed_manga(replace(n.link.as_str(), "/manga/", ""), n.image.clone(), n.label.clone())
    }
}

/// A page of the listing; more pages follow unless a search was made.
pub fn manga_list(choice: &FilterChoice, nodes: &Vec<Option<ListNode>>) -> (r: MangaPageResult)
    ensures
        seq_views(r.manga@) == entries_spec(&Entries, opt_views(nodes@)),
        r.has_more == (choice@.query.len() == 0),
{
    MangaPageResult { manga: collect_entries(&Entries, nodes), has_more: choice.query.as_str().is_empty() }
}

/// The page of a comic.
pub fn manga_url(base: &str, id: &str) -> (r: String)
    ensures
        r@ == base@ + "/manga/"@ + id@,
{
    let mut r = base.to_owned();
    r.append("/manga/");
    r.append(id);
    r
}

/// The comic described on its page.
pub open spec fn details_spec(
    base: Seq<char>,
    id: Seq<char>,
    cover: Seq<char>,
    title: Seq<char>,
    author_text: Seq<char>,
    tags: Seq<Seq<char>>,
    description: Seq<char>,
    categories: Seq<Seq<char>>,
    status_text: Seq<char>,
) -> MangaView {
    MangaView {
        id,
        cover,
        title: trim_seq(title),
        author: join_seq(split_seq(trim_seq(author_text), "&"@), ", "@),
        artist: join_seq(trimmed_nonempty(tags), ", "@),
        description: trim_seq(description),
        url: base + "/manga/"@ + id,
        categories: trimmed_nonempty(categories),
        status: status_by(trim_seq(status_text), "已完结"@, "连载中"@),
        nsfw: ContentRating::Nsfw,
        viewer: Viewer::Scroll,
    }
}

/// The comic described on its page.
pub fn manga_details(
    base: &str,
    id: &str,
    cover: &str,
    title: &str,
    author_text: &str,
    tags: &Vec<String>,
    description: &str,
    categories: &Vec<String>,
    status_text: &str,
) -> (r: Manga)
    ensures
        r@ == details_spec(base@, id@, cover@, title@, author_text@, views(tags@), description@, views(categories@), status_text@),
{
    let r = Manga {
        id: id.to_owned(),
        cover: cover.to_owned(),
        title: trim(title),
        author: split_join(trim(author_text).as_str(), "&", ", "),
        artist: join(&trim_nonempty(tags), ", "),
        description: trim(description),
        url: manga_url(base, id),
        categories: trim_nonempty(categories),
        status: status_by_markers(trim(status_text).as_str(), "已完结", "连载中"),
        nsfw: ContentRating::Nsfw,
        viewer: Viewer::Scroll,
    };
    assert(r@ =~= details_spec(base@, id@, cover@, title@, author_text@, views(tags@), description@, views(categories@), status_text@));
    r
}

/// The reading page of a chapter.
pub fn chapter_url(base: &str, manga_id: &str, chapter_id: &str) -> (r: String)
    ensures
        r@ == base@ + "/manga/"@ + manga_id@ + "/"@ + chapter_id@,
{
    let mut r = base.to_owned();
    r.append("/manga/");
    r.append(manga_id);
    r.append("/");
    r.append(chapter_id);
    r
}

/// How a chapter entry (link `href`, inner text) of a comic becomes a chapter.
pub struct Chapters {
    pub base: String,
    pub manga_id: String,
}

impl ChapterRule for Chapters {
    open spec fn draft_spec(&self, n: ChapterNodeView) -> Option<DraftView> {
        let id = split_seq(n.link, "/"@).last();
        Some(DraftView { id, title: trim_seq(n.label), scanlator: Seq::empty(), url: self.base@ + "/manga/"@ + self.manga_id@ + "/"@ + id })
    }

    fn draft(&self, n: &ChapterNode) -> (d: Option<ChapterDraft>) {
        let id = last_piece(n.link.as_str(), "/");
        let url = chapter_url(self.base.as_str(), self.manga_id.as_str(), id.as_str());
        let d = ChapterDraft { id, title: trim(n.label.as_str()), scanlator: String::new(), url };
        assert(self.draft_spec(n@) == Some(d@));
        Some(d)
    }
}

/// The chapters of a comic, newest first.
pub fn chapter_list(rule: &Chapters, nodes: &Vec<Option<ChapterNode>>) -> (r: Vec<Chapter>)
    ensures
        seq_views(r@) == newest_first(drafts_spec(rule, opt_views(nodes@))),
{
    number_newest_first(&collect_drafts(rule, nodes))
}

/// How an image gives its address: its `data-original`, trimmed.
pub struct Pages;

impl PageRule for Pages {
    open spec fn url_spec(&self, n: ImageNodeView) -> Seq<char> {
        trim_seq(n.primary)
    }

    fn url(&self, n: &ImageNode) -> (u: String) {
        trim(n.primary.as_str())
    }
}

/// The pages of a chapter, one per image that could be read.
pub fn page_list(nodes: &Vec<Option<ImageNode>>) -> (r: Vec<Page>)
    ensures
        seq_views(r@) == paged(urls_spec(&Pages, opt_views(nodes@))),
{
    collect_pages(&Pages, nodes)
}

/// Each page's address is the trimmed `data-original` of the image at the page's index.
pub proof fn law_page_address(nodes: Seq<Option<crate::model::ImageNodeView>>)
    ensures
        forall|i: int| 0 <= i < crate::assemble::paged(crate::assemble::urls_spec(&Pages, nodes)).len() ==> {
            let p = #[trigger] crate::assemble::paged(crate::assemble::urls_spec(&Pages, nodes))[i];
            let n = nodes[p.index as int]->0;
            &&& p.index < nodes.len()
            &&& nodes[p.index as int] is Some
            &&& p.url == crate::text::trim_seq(n.primary)
        },
{
    crate::laws::law_page_from_image(&Pages, nodes);
}

/// Each chapter comes from the entry at position `number - 1`: its id is the last `/`-separated
/// part of the entry's link, its title the entry's trimmed text, and its address the comic's
/// chapter page of that id.
pub proof fn law_chapter_fields(rule: Chapters, nodes: Seq<Option<crate::model::ChapterNodeView>>)
    ensures
        forall|i: int| 0 <= i < crate::assemble::newest_first(crate::assemble::drafts_spec(&rule, nodes)).len() ==> {
            let c = #[trigger] crate::assemble::newest_first(crate::assemble::drafts_spec(&rule, nodes))[i];
            let k = c.number - 1;
            let n = nodes[k]->0;
            &&& 0 <= k < nodes.len()
            &&& nodes[k] is Some
            &&& c.id == crate::text::split_seq(n.link, "/"@).last()
            &&& c.title == crate::text::trim_seq(n.label)
            &&& c.url == rule.base@ + "/manga/"@ + rule.manga_id@ + "/"@ + c.id
            &&& c.scanlator.len() == 0
        },
{
    crate::laws::law_chapter_from_entry(crate::assemble::drafts_spec(&rule, nodes));
    assert forall|i: int| 0 <= i < crate::assemble::newest_first(crate::assemble::drafts_spec(&rule, nodes)).len() implies {
            let c = #[trigger] crate::assemble::newest_first(crate::assemble::drafts_spec(&rule, nodes))[i];
            let k = c.number - 1;
            let n = nodes[k]->0;
            &&& 0 <= k < nodes.len()
            &&& nodes[k] is Some
            &&& c.id == crate::text::split_seq(n.link, "/"@).last()
            &&& c.title == crate::text::trim_seq(n.label)
            &&& c.url == rule.base@ + "/manga/"@ + rule.manga_id@ + "/"@ + c.id
            &&& c.scanlator.len() == 0
        } by {
        let c = crate::assemble::newest_first(crate::assemble::drafts_spec(&rule, nodes))[i];
        let k = c.number - 1;
        crate::laws::lemma_draft_from_node(&rule, nodes, k);
    }
}

/// The comics of a listing are, in order, one per entry that could be read: its id is the entry's
/// link without `/manga/`, its cover the entry's image, its title the entry's title.
pub proof fn law_listing_entry_fields(nodes: Seq<Option<crate::model::ListNodeView>>)
    ensures
        crate::assemble::entries_spec(&Entries, nodes).len() == crate::model::somes(nodes).len(),
        forall|i: int| 0 <= i < crate::model::somes(nodes).len() ==> {
            let m = #[trigger] crate::assemble::entries_spec(&Entries, nodes)[i];
            let n = crate::model::somes(nodes)[i];
            &&& m.id == crate::text::replace_seq(n.link, "/manga/"@, ""@)
            &&& m.cover == n.image
            &&& m.title == n.label
        },
{
    crate::laws::law_entries_in_order(&Entries, nodes);
}

/// A comic is completed when its trimmed status text mentions 已完结, otherwise ongoing when it
/// mentions 连载中, otherwise of unknown status.
pub proof fn law_status_words(base: Seq<char>, id: Seq<char>, cover: Seq<char>, title: Seq<char>, author_text: Seq<char>, tags: Seq<Seq<char>>, description: Seq<char>, categories: Seq<Seq<char>>, status_text: Seq<char>)
    ensures
        ({
            let st = details_spec(base, id, cover, title, author_text, tags, description, categories, status_text).status;
            let t = crate::text::trim_seq(status_text);
            &&& crate::text::contains_seq(t, "已完结"@) ==> st == crate::model::MangaStatus::Completed
            &&& (!crate::text::contains_seq(t, "已完结"@) && crate::text::contains_seq(t, "连载中"@)) ==> st == crate::model::MangaStatus::Ongoing
            &&& (!crate::text::contains_seq(t, "已完结"@) && !crate::text::contains_seq(t, "连载中"@)) ==> st == crate::model::MangaStatus::Unknown
        }),
{
}

/// Each select box maps option `i` to the `i`-th of the site's values for it; a lone selection sets
/// that box's value.
pub proof fn law_filter_options(i: i64)
    ensures
        0 <= i < 6 ==> crate::filters::choice_spec(filter_tables_spec(), seq![crate::model::FilterView::Select { name: "分类"@, index: i }]).picks[0]
            == seq!["all"@, "韩漫"@, "日漫"@, "3D漫画"@, "真人"@, "短篇"@][i as int],
        0 <= i < 3 ==> crate::filters::choice_spec(filter_tables_spec(), seq![crate::model::FilterView::Select { name: "进度"@, index: i }]).picks[1]
            == seq!["all"@, "serialized"@, "completed"@][i as int],
        0 <= i < 2 ==> crate::filters::choice_spec(filter_tables_spec(), seq![crate::model::FilterView::Select { name: "排序"@, index: i }]).picks[2]
            == seq!["hits"@, "time"@][i as int],
{
    reveal_strlit("分类");
    reveal_strlit("进度");
    reveal_strlit("排序");
    let t = filter_tables_spec();
    let names = seq!["分类"@, "进度"@, "排序"@];
    assert forall|a: int, c: int| 0 <= a < names.len() && 0 <= c < names.len() && a != c implies #[trigger] names[a]
        != #[trigger] names[c] by {
        assert(names[a][0] != names[c][0]);
    }
    assert(forall|a: int| 0 <= a < t.len() ==> #[trigger] t[a].name == names[a]);
    crate::filters::lemma_table_hit(t, names, 0, 0);
    if 0 <= i < 6 {
        crate::filters::law_lone_selection(t, 0, i);
    }
    crate::filters::lemma_table_hit(t, names, 1, 0);
    if 0 <= i < 3 {
        crate::filters::law_lone_selection(t, 1, i);
    }
    crate::filters::lemma_table_hit(t, names, 2, 0);
    if 0 <= i < 2 {
        crate::filters::law_lone_selection(t, 2, i);
    }
}

/// A comic read from its page: the given id and cover; the title and description trimmed; the
/// `&`-separated authors joined with `, `; the non-empty trimmed tags joined with `, ` as artists;
/// its page address; rated adult and read by scrolling; every category non-empty and trimmed.
pub proof fn law_details_fields(base: Seq<char>, id: Seq<char>, cover: Seq<char>, title: Seq<char>, author_text: Seq<char>, tags: Seq<Seq<char>>, description: Seq<char>, categories: Seq<Seq<char>>, status_text: Seq<char>)
    ensures
        ({
            let r = details_spec(base, id, cover, title, author_text, tags, description, categories, status_text);
            &&& r.id == id
            &&& r.cover == cover
            &&& r.title == crate::text::trim_seq(title)
            &&& r.author == crate::text::join_seq(crate::text::split_seq(crate::text::trim_seq(author_text), "&"@), ", "@)
            &&& r.artist == crate::text::join_seq(crate::text::trimmed_nonempty(tags), ", "@)
            &&& r.description == crate::text::trim_seq(description)
            &&& r.url == base + "/manga/"@ + id
            &&& r.nsfw == crate::model::ContentRating::Nsfw
            &&& r.viewer == crate::model::Viewer::Scroll
            &&& forall|i: int| 0 <= i < r.categories.len() ==> (#[trigger] r.categories[i]).len() > 0 && crate::text::trim_seq(r.categories[i]) == r.categories[i]
        }),
{
    crate::text::law_trimmed_nonempty_clean(categories);
}

/// A comic listed with the link `/manga/<id>`, with an `<id>` that does not contain `/manga/`, has
/// the id `<id>`, and its page is
/// the comic's site address followed by that link.
pub proof fn law_listed_id_leads_to_page(base: Seq<char>, id: Seq<char>, cover: Seq<char>, title: Seq<char>, author_text: Seq<char>, tags: Seq<Seq<char>>, description: Seq<char>, categories: Seq<Seq<char>>, status_text: Seq<char>, image: Seq<char>, label: Seq<char>)
    requires
        !crate::text::contains_seq(id, "/manga/"@),
    ensures
        Entries.entry_spec(crate::model::ListNodeView { link: "/manga/"@ + id, image, label }).id == id,
        details_spec(base, id, cover, title, author_text, tags, description, categories, status_text).url == base + ("/manga/"@ + id),
{
    reveal_strlit("/manga/");
    reveal_strlit("");
    assert(""@ =~= Seq::<char>::empty());
    crate::laws::law_strip_prefix("/manga/"@, id);
    assert(details_spec(base, id, cover, title, author_text, tags, description, categories, status_text).url =~= base + ("/manga/"@ + id));
}

} // verus!
