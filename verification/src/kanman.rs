//! The kanman source. Its listing and search answer in JSON; the fields the
//! app reads from each item are handed over as [`JsonItem`]s.
use vstd::prelude::*;
use crate::assemble::{
    collect_drafts, drafts_spec, newest_first, number_newest_first, pages_from_urls, pages_of, ChapterRule,
};
use crate::filters::{apply_filters, choice_spec, FilterChoice, SelectTableView};
use crate::http::{header, HeaderView};
use crate::model::{
    listed, listed_manga, opt_views, seq_views, Chapter, ChapterDraft, ChapterNode, ChapterNodeView, ContentRating,
    DraftView, Filter, Manga, MangaPageResult, MangaStatus, MangaView, Page, Viewer,
};
use crate::text::{
    dec_int, i32_to_string, i64_to_string, join_seq, last_piece, replace, replace_seq, split_join, split_seq, trim,
    trim_nonempty, trim_seq, trimmed_nonempty, views,
};

verus! {

/// The desktop site.
pub const WWW_URL: &'static str = "https://www.kanman.com";

/// The mobile site.
pub const WAP_URL: &'static str = "https://m.kanman.com";

/// The desktop browser identity.
pub const WWW_USER_AGENT: &'static str = "Mozilla/5.0 (Macintosh; Intel Mac OS X 10_15_7) AppleWebKit/537.36 (KHTML, like Gecko) Chrome/123.0.0.0 Safari/537.36";

/// The mobile browser identity.
pub const WAP_USER_AGENT: &'static str = "Mozilla/5.0 (iPhone; CPU iPhone OS 17_4 like Mac OS X) AppleWebKit/605.1.15 (KHTML, like Gecko) Version/17.4 Mobile/15E148 Safari/604.1";

/// The search text of the filters (the last title filter; empty if none).
pub fn filter_choice(filters: &Vec<Filter>) -> (r: FilterChoice)
    ensures
        r@ == choice_spec(Seq::<SelectTableView>::empty(), seq_views(filters@)),
{
    let tables: Vec<crate::filters::SelectTable> = Vec::new();
    assert(seq_views(tables@) =~= Seq::<SelectTableView>::empty());
    apply_filters(filters, &tables)
}

/// The ranking (mobile) or, when there is a search text (given
/// percent-encoded), the search (desktop) endpoint.
pub fn manga_list_url(choice: &FilterChoice, encoded_query: &str, page: i32) -> (r: String)
    ensures
        r@ == if choice@.query.len() == 0 {
            WAP_URL@ + "/api/getsortlist/?product_id=1&productname=kmh&platformname=wap&orderby=click&search_key=&comic_sort=&size=30&page="@
                + dec_int(page as int)
        } else {
            WWW_URL@ + "/api/getsortlist/?product_id=1&productname=kmh&platformname=pc&search_key="@ + encoded_query@
        },
{
    if choice.query.as_str().is_empty() {
        let mut r = WAP_URL.to_owned();
        r.append("/api/getsortlist/?product_id=1&productname=kmh&platformname=wap&orderby=click&search_key=&comic_sort=&size=30&page=");
        r.append(i32_to_string(page).as_str());
        r
    } else {
        let mut r = WWW_URL.to_owned();
        r.append("/api/getsortlist/?product_id=1&productname=kmh&platformname=pc&search_key=");
        r.append(encoded_query);
        r
    }
}

/// The browser identity the listing request is sent with: mobile for the
/// ranking, desktop for a search.
pub fn manga_list_user_agent(choice: &FilterChoice) -> (r: String)
    ensures
        r@ == if choice@.query.len() == 0 { WAP_USER_AGENT@ } else { WWW_USER_AGENT@ },
{
    if choice.query.as_str().is_empty() {
        WAP_USER_AGENT.to_owned()
    } else {
        WWW_USER_AGENT.to_owned()
    }
}

/// The fields read from one item of the listing answer: `comic_id` when it
/// is an integer, `comic_name` and `cover_img` when they are strings.
#[derive(Clone, Debug)]
pub struct JsonItem {
    pub comic_id: Option<i64>,
    pub comic_name: Option<String>,
    pub cover_img: Option<String>,
}

/// The text of an optional string, empty when absent.
pub open spec fn or_empty(s: Option<String>) -> Seq<char> {
    match s {
        Some(t) => t@,
        None => Seq::empty(),
    }
}

/// The comic an item of the listing answer stands for: its id written in
/// decimal (0 when absent), its cover and its name (empty when absent).
pub open spec fn entry_spec(item: JsonItem) -> MangaView {
    listed(
        dec_int(match item.comic_id {
            Some(v) => v as int,
            None => 0,
        }),
        or_empty(item.cover_img),
        or_empty(item.comic_name),
    )
}

fn owned_or_empty(s: &Option<String>) -> (r: String)
    ensures
        r@ == or_empty(*s),
{
    match s {
        Some(t) => t.clone(),
        None => String::new(),
    }
}

/// A page of the listing, one comic per item, in order; more pages follow
/// unless a search was made.
pub fn manga_list(choice: &FilterChoice, items: &Vec<JsonItem>) -> (r: MangaPageResult)
    ensures
        seq_views(r.manga@) == items@.map_values(|i: JsonItem| entry_spec(i)),
        r.has_more == (choice@.query.len() == 0),
{
    let mut out: Vec<Manga> = Vec::new();
    let mut k: usize = 0;
    while k < items.len()
        invariant
            k <= items@.len(),
            seq_views(out@) == items@.take(k as int).map_values(|i: JsonItem| entry_spec(i)),
        decreases items@.len() - k,
    {
        let it = &items[k];
        let id = match it.comic_id {
            Some(v) => i64_to_string(v),
            None => i64_to_string(0),
        };
        let m = listed_manga(id, owned_or_empty(&it.cover_img), owned_or_empty(&it.comic_name));
        let ghost before = seq_views(out@);
        out.push(m);
        assert(seq_views(out@) =~= before.push(m@));
        assert(seq_views(out@) =~= items@.take(k + 1).map_values(|i: JsonItem| entry_spec(i)));
        k = k + 1;
    }
    assert(items@.take(items@.len() as int) =~= items@);
    MangaPageResult { manga: out, has_more: choice.query.as_str().is_empty() }
}

/// The mobile page of a comic.
pub fn manga_url(id: &str) -> (r: String)
    ensures
        r@ == WAP_URL@ + "/"@ + id@ + "/"@,
{
    let mut r = WAP_URL.to_owned();
    r.append("/");
    r.append(id);
    r.append("/");
    r
}

/// The comic described on its page; the cover is taken from the image host
/// by id.
pub open spec fn details_spec(
    id: Seq<char>,
    title: Seq<char>,
    author_text: Seq<char>,
    description: Seq<char>,
    categories: Seq<Seq<char>>,
) -> MangaView {
    MangaView {
        id,
        cover: "https://image.yqmh.com/mh/"@ + id + ".jpg"@,
        title: trim_seq(title),
        author: join_seq(split_seq(trim_seq(author_text), " "@), ", "@),
        artist: Seq::empty(),
        description: trim_seq(description),
        url: WAP_URL@ + "/"@ + id + "/"@,
        categories: trimmed_nonempty(categories),
        status: MangaStatus::Unknown,
        nsfw: ContentRating::Safe,
        viewer: Viewer::Scroll,
    }
}

/// The comic described on its page.
pub fn manga_details(id: &str, title: &str, author_text: &str, description: &str, categories: &Vec<String>) -> (r: Manga)
    ensures
        r@ == details_spec(id@, title@, author_text@, description@, views(categories@)),
{
    let mut cover = "https://image.yqmh.com/mh/".to_owned();
    cover.append(id);
    cover.append(".jpg");
    let r = Manga {
        id: id.to_owned(),
        cover,
        title: trim(title),
        author: split_join(trim(author_text).as_str(), " ", ", "),
        artist: String::new(),
        description: trim(description),
        url: manga_url(id),
        categories: trim_nonempty(categories),
        status: MangaStatus::Unknown,
        nsfw: ContentRating::Safe,
        viewer: Viewer::Scroll,
    };
    assert(r@ =~= details_spec(id@, title@, author_text@, description@, views(categories@)));
    r
}

/// How a chapter entry (link `href`, link `title`) of a comic becomes a
/// chapter: the id is the last part of the link without `.html`.
pub struct Chapters {
    pub manga_id: String,
}

impl ChapterRule for Chapters {
    open spec fn draft_spec(&self, n: ChapterNodeView) -> Option<DraftView> {
        let id = replace_seq(split_seq(n.link, "/"@).last(), ".html"@, ""@);
        Some(DraftView { id, title: n.label, scanlator: Seq::empty(), url: WAP_URL@ + "/"@ + self.manga_id@ + "/"@ + id + ".html"@ })
    }

    fn draft(&self, n: &ChapterNode) -> (d: Option<ChapterDraft>) {
        let id = replace(last_piece(n.link.as_str(), "/").as_str(), ".html", "");
        let mut url = WAP_URL.to_owned();
        url.append("/");
        url.append(self.manga_id.as_str());
        url.append("/");
        url.append(id.as_str());
        url.append(".html");
        let d = ChapterDraft { id, title: n.label.clone(), scanlator: String::new(), url };
        assert(self.draft_spec(n@) == Some(d@));
        Some(d)
    }
}

/// The chapters of a comic, newest first.
pub fn chapter_list(rule: &Chapters, nodes: &Vec<Option<ChapterNode>>) -> (r: Vec<Chapter>)
    ensures
        seq_views(r@) == newest_first(drafts_spec(rule, opt_views(nodes@))),
{
    number_newest_first(&collect_drafts(rule, nodes))
}

/// The endpoint listing the images of a chapter.
pub fn page_list_url(manga_id: &str, chapter_id: &str) -> (r: String)
    ensures
        r@ == WAP_URL@ + "/api/getchapterinfov2?product_id=1&productname=kmh&platformname=wap&comic_id="@ + manga_id@
            + "&chapter_newid="@ + chapter_id@ + "&isWebp=0&quality=low"@,
{
    let mut r = WAP_URL.to_owned();
    r.append("/api/getchapterinfov2?product_id=1&productname=kmh&platformname=wap&comic_id=");
    r.append(manga_id);
    r.append("&chapter_newid=");
    r.append(chapter_id);
    r.append("&isWebp=0&quality=low");
    r
}

/// The pages of a chapter: one per image address of the answer, in order.
pub fn page_list(urls: Vec<String>) -> (r: Vec<Page>)
    ensures
        seq_views(r@) == pages_of(views(urls@)),
{
    pages_from_urls(urls)
}

/// The headers images are fetched with: the mobile site as referrer and the
/// mobile browser identity.
pub fn image_request_headers() -> (r: Vec<crate::http::Header>)
    ensures
        seq_views(r@) == seq![
            HeaderView { name: "Referer"@, value: WAP_URL@ },
            HeaderView { name: "User-Agent"@, value: WAP_USER_AGENT@ },
        ],
{
    let mut r: Vec<crate::http::Header> = Vec::new();
    r.push(header("Referer", WAP_URL));
    r.push(header("User-Agent", WAP_USER_AGENT));
    assert(seq_views(r@) =~~= seq![
        HeaderView { name: "Referer"@, value: WAP_URL@ },
        HeaderView { name: "User-Agent"@, value: WAP_USER_AGENT@ },
    ]);
    r
}

/// Each chapter comes from the entry at position `number - 1`: its id is the last `/`-separated
/// part of the entry's link without `.html`, its title the entry's link title as read, and its
/// address the comic's chapter page of that id.
pub proof fn law_chapter_fields(rule: Chapters, nodes: Seq<Option<crate::model::ChapterNodeView>>)
    ensures
        forall|i: int| 0 <= i < crate::assemble::newest_first(crate::assemble::drafts_spec(&rule, nodes)).len() ==> {
            let c = #[trigger] crate::assemble::newest_first(crate::assemble::drafts_spec(&rule, nodes))[i];
            let k = c.number - 1;
            let n = nodes[k]->0;
            &&& 0 <= k < nodes.len()
            &&& nodes[k] is Some
            &&& c.id == crate::text::replace_seq(crate::text::split_seq(n.link, "/"@).last(), ".html"@, ""@)
            &&& c.title == n.label
            &&& c.url == WAP_URL@ + "/"@ + rule.manga_id@ + "/"@ + c.id + ".html"@
            &&& c.scanlator.len() == 0
        },
{
    crate::laws::law_chapter_from_entry(crate::assemble::drafts_spec(&rule, nodes));
    assert forall|i: int| 0 <= i < crate::assemble::newest_first(crate::assemble::drafts_spec(&rule, nodes)).len() implies {
            let c = #[trigger] crate::assemble::newest_first(crate::assemble::drafts_spec(&rule, nodes))[i];
            let k = c.number - 1;
            let n = nodes[k]->0;
            &&& 0 <= k < nodes.len()
            &&& nodes[k] is Some
            &&& c.id == crate::text::replace_seq(crate::text::split_seq(n.link, "/"@).last(), ".html"@, ""@)
            &&& c.title == n.label
            &&& c.url == WAP_URL@ + "/"@ + rule.manga_id@ + "/"@ + c.id + ".html"@
            &&& c.scanlator.len() == 0
        } by {
        let c = crate::assemble::newest_first(crate::assemble::drafts_spec(&rule, nodes))[i];
        let k = c.number - 1;
        crate::laws::lemma_draft_from_node(&rule, nodes, k);
    }
}

/// A comic read from its page: the given id, with the cover image named after it; the title and
/// description trimmed; the space-separated authors joined with `, `; no artist; its page address;
/// status unknown; rated safe and read by scrolling; every category non-empty and trimmed.
pub proof fn law_details_fields(id: Seq<char>, title: Seq<char>, author_text: Seq<char>, description: Seq<char>, categories: Seq<Seq<char>>)
    ensures
        ({
            let r = details_spec(id, title, author_text, description, categories);
            &&& r.id == id
            &&& r.cover == "https://image.yqmh.com/mh/"@ + id + ".jpg"@
            &&& r.title == crate::text::trim_seq(title)
            &&& r.author == crate::text::join_seq(crate::text::split_seq(crate::text::trim_seq(author_text), " "@), ", "@)
            &&& r.artist.len() == 0
            &&& r.description == crate::text::trim_seq(description)
            &&& r.url == WAP_URL@ + "/"@ + id + "/"@
            &&& r.status == crate::model::MangaStatus::Unknown
            &&& r.nsfw == crate::model::ContentRating::Safe
            &&& r.viewer == crate::model::Viewer::Scroll
            &&& forall|i: int| 0 <= i < r.categories.len() ==> (#[trigger] r.categories[i]).len() > 0 && crate::text::trim_seq(r.categories[i]) == r.categories[i]
        }),
{
    crate::text::law_trimmed_nonempty_clean(categories);
}

} // verus!
