//! The veryim source. The image list of a chapter is a Base64-encoded,
//! `$qingtiandy$`-separated list of addresses written into the page.
use vstd::prelude::*;
use vstd::utf8::{decode_utf8, encode_utf8, valid_utf8};
use crate::assemble::{
    collect_drafts, collect_entries, drafts_spec, entries_spec, newest_first, number_newest_first, pages_from_urls,
    pages_of, reversed_drafts, status_by, status_by_markers, ChapterRule, EntryRule,
};
use crate::decode::{base64_standard_decode, decode_base64_standard, utf8_to_string};
use crate::filters::{apply_filters, choice_spec, FilterChoice, SelectTable, SelectTableView};
use crate::model::{
    listed, listed_manga, opt_views, seq_views, Chapter, ChapterDraft, ChapterNode, ChapterNodeView, ContentRating,
    DraftView, Filter, ListNode, ListNodeView, Manga, MangaPageResult, MangaView, Page, PageView, Viewer,
};
use crate::text::{
    after_seq, before_seq, dec_int, i32_to_string, join_seq, last_piece, replace, replace_seq, split, split_join,
    split_seq, text_after, text_before, trim, trim_seq, views, match_count,
};

verus! {

/// The site's address.
pub const BASE_URL: &'static str = "https://www.veryim.com";

/// The search text of the filters (the last title filter; empty if none).
pub fn filter_choice(filters: &Vec<Filter>) -> (r: FilterChoice)
    ensures
        r@ == choice_spec(Seq::<SelectTableView>::empty(), seq_views(filters@)),
{
    let tables: Vec<SelectTable> = Vec::new();
    assert(seq_views(tables@) =~= Seq::<SelectTableView>::empty());
    apply_filters(filters, &tables)
}

/// The listing page, or the search page for the search text (given
/// percent-encoded) when there is one.
pub fn manga_list_url(choice: &FilterChoice, encoded_query: &str, page: i32) -> (r: String)
    ensures
        r@ == if choice@.query.len() == 0 {
            BASE_URL@ + "/list/"@ + dec_int(page as int) + ".html"@
        } else {
            BASE_URL@ + "/statics/search.aspx?key="@ + encoded_query@ + "&page="@ + dec_int(page as int)
        },
{
    let mut r = BASE_URL.to_owned();
    if choice.query.as_str().is_empty() {
        r.append("/list/");
        r.append(i32_to_string(page).as_str());
        r.append(".html");
    } else {
        r.append("/statics/search.aspx?key=");
        r.append(encoded_query);
        r.append("&page=");
        r.append(i32_to_string(page).as_str());
    }
    r
}

/// How an entry of the listing (link `href`, image `src`, link `title`)
/// becomes a comic.
pub struct Entries;

impl EntryRule for Entries {
    open spec fn entry_spec(&self, n: ListNodeView) -> MangaView {
        listed(replace_seq(replace_seq(n.link, "/manhua/"@, ""@), "/"@, ""@), n.image, n.label)
    }

    fn entry(&self, n: &ListNode) -> (m: Manga) {
        listed_manga(replace(replace(n.link.as_str(), "/manhua/", "").as_str(), "/", ""), n.image.clone(), n.label.clone())
    }
}

/// A page of the listing; more pages follow unless a search was made.
pub fn manga_list(choice: &FilterChoice, nodes: &Vec<Option<ListNode>>) -> (r: MangaPageResult)
    ensures
        seq_views(r.manga@) == entries_spec(&Entries, opt_views(nodes@)),
        r.has_more == (choice@.query.len() == 0),
{
    MangaPageResult { manga: collect_entries(&Entries, nodes), has_more: choice.query.as_str().is_empty() }
}

/// The page of a comic.
pub fn manga_url(id: &str) -> (r: String)
    ensures
        r@ == BASE_URL@ + "/manhua/"@ + id@ + "/"@,
{
    let mut r = BASE_URL.to_owned();
    r.append("/manhua/");
    r.append(id);
    r.append("/");
    r
}

/// The comic described on its page; the status comes from the
/// `og:novel:status` meta data.
pub open spec fn details_spec(
    id: Seq<char>,
    cover: Seq<char>,
    title: Seq<char>,
    author_text: Seq<char>,
    description: Seq<char>,
    status_text: Seq<char>,
) -> MangaView {
    MangaView {
        id,
        cover,
        title,
        author: join_seq(split_seq(trim_seq(author_text), " "@), ", "@),
        artist: Seq::empty(),
        description: replace_seq(trim_seq(description), "漫画简介："@, ""@),
        url: BASE_URL@ + "/manhua/"@ + id + "/"@,
        categories: Seq::empty(),
        status: status_by(status_text, "完结"@, "连载中"@),
        nsfw: ContentRating::Safe,
        viewer: Viewer::Scroll,
    }
}

/// The comic described on its page.
pub fn manga_details(id: &str, cover: &str, title: &str, author_text: &str, description: &str, status_text: &str) -> (r: Manga)
    ensures
        r@ == details_spec(id@, cover@, title@, author_text@, description@, status_text@),
{
    let r = Manga {
        id: id.to_owned(),
        cover: cover.to_owned(),
        title: title.to_owned(),
        author: split_join(trim(author_text).as_str(), " ", ", "),
        artist: String::new(),
        description: replace(trim(description).as_str(), "漫画简介：", ""),
        url: manga_url(id),
        categories: Vec::new(),
        status: status_by_markers(status_text, "完结", "连载中"),
        nsfw: ContentRating::Safe,
        viewer: Viewer::Scroll,
    };
    assert(r@ =~= details_spec(id@, cover@, title@, author_text@, description@, status_text@));
    r
}

/// The reading page of a chapter.
pub fn chapter_url(manga_id: &str, chapter_id: &str) -> (r: String)
    ensures
        r@ == BASE_URL@ + "/manhua/"@ + manga_id@ + "/"@ + chapter_id@ + ".html"@,
{
    let mut r = BASE_URL.to_owned();
    r.append("/manhua/");
    r.append(manga_id);
    r.append("/");
    r.append(chapter_id);
    r.append(".html");
    r
}

/// How a chapter entry (link `href`, link `title`) of a comic becomes a
/// chapter: the id is the last part of the link without `.html`.
pub struct Chapters {
    pub manga_id: String,
}

impl ChapterRule for Chapters {
    open spec fn draft_spec(&self, n: ChapterNodeView) -> Option<DraftView> {
        let id = replace_seq(split_seq(n.link, "/"@).last(), ".html"@, ""@);
        Some(DraftView {
            id,
            title: n.label,
            scanlator: Seq::empty(),
            url: BASE_URL@ + "/manhua/"@ + self.manga_id@ + "/"@ + id + ".html"@,
        })
    }

    fn draft(&self, n: &ChapterNode) -> (d: Option<ChapterDraft>) {
        let id = replace(last_piece(n.link.as_str(), "/").as_str(), ".html", "");
        let url = chapter_url(self.manga_id.as_str(), id.as_str());
        let d = ChapterDraft { id, title: n.label.clone(), scanlator: String::new(), url };
        assert(self.draft_spec(n@) == Some(d@));
        Some(d)
    }
}

/// The chapters of a comic in page order; they are numbered from the end of
/// the page, so the last entry is chapter 1.
pub fn chapter_list(rule: &Chapters, nodes: &Vec<Option<ChapterNode>>) -> (r: Vec<Chapter>)
    ensures
        seq_views(r@) == newest_first(drafts_spec(rule, opt_views(nodes@)).reverse()),
{
    let drafts = collect_drafts(rule, nodes);
    number_newest_first(&reversed_drafts(drafts))
}

/// The Base64 image list written into a chapter's page.
pub open spec fn image_list_spec(html: Seq<char>) -> Option<Seq<char>> {
    match after_seq(html, "var qTcms_S_m_murl_e=\""@) {
        Some(a) => before_seq(a, "\";var qTcms_S_m_murl_e2"@),
        None => None,
    }
}

/// The Base64 image list written into a chapter's page, when its markers
/// are there.
pub fn image_list(html: &str) -> (r: Option<String>)
    ensures
        r matches Some(t) ==> image_list_spec(html@) == Some(t@),
        r is None ==> image_list_spec(html@) is None,
{
    match text_after(html, "var qTcms_S_m_murl_e=\"") {
        Some(a) => text_before(a.as_str(), "\";var qTcms_S_m_murl_e2"),
        None => None,
    }
}

/// Why an image list could not be read.
#[derive(Clone, Copy, Debug, PartialEq, Eq, Structural)]
pub enum ImageListError {
    /// The list is not valid Base64.
    BadBase64,
    /// The decoded list is not valid UTF-8.
    BadUtf8,
}

/// The pages of a decoded image list: one per `$qingtiandy$`-separated
/// address, or an error when the bytes are not UTF-8.
pub open spec fn decoded_pages_spec(data: Seq<u8>) -> Result<Seq<PageView>, ImageListError> {
    if valid_utf8(data) {
        Ok(pages_of(split_seq(decode_utf8(data), "$qingtiandy$"@)))
    } else {
        Err(ImageListError::BadUtf8)
    }
}

/// The pages of a decoded image list.
pub fn pages_from_decoded(data: Vec<u8>) -> (r: Result<Vec<Page>, ImageListError>)
    ensures
        match r {
            Ok(p) => decoded_pages_spec(data@) == Ok::<Seq<PageView>, ImageListError>(seq_views(p@)),
            Err(e) => decoded_pages_spec(data@) == Err::<Seq<PageView>, ImageListError>(e),
        },
{
    let ghost bytes = data@;
    match utf8_to_string(data) {
        Some(text) => {
            let urls = split(text.as_str(), "$qingtiandy$");
            let pages = pages_from_urls(urls);
            Ok(pages)
        },
        None => Err(ImageListError::BadUtf8),
    }
}

/// The pages of an image list as written in the page: Base64-decoded, then
/// read as in [`decoded_pages_spec`].
pub open spec fn page_list_spec(list: Seq<char>) -> Result<Seq<PageView>, ImageListError> {
    match base64_standard_decode(encode_utf8(list)) {
        Some(data) => decoded_pages_spec(data),
        None => Err(ImageListError::BadBase64),
    }
}

/// The pages of an image list as written in the page.
pub fn page_list(list: &str) -> (r: Result<Vec<Page>, ImageListError>)
    ensures
        match r {
            Ok(p) => page_list_spec(list@) == Ok::<Seq<PageView>, ImageListError>(seq_views(p@)),
            Err(e) => page_list_spec(list@) == Err::<Seq<PageView>, ImageListError>(e),
        },
{
    match decode_base64_standard(list.as_bytes()) {
        Some(data) => pages_from_decoded(data),
        None => Err(ImageListError::BadBase64),
    }
}

/// An image list whose Base64 decodes to UTF-8 text gives one page more than
/// the text has `$qingtiandy$` separators, indexed from 0, and joining the
/// page addresses with the separator gives the text back; decoded bytes that
/// are not UTF-8 give `BadUtf8`, and a list that is not Base64 `BadBase64`.
pub proof fn law_image_list_pages(list: Seq<char>)
    ensures
        base64_standard_decode(encode_utf8(list)) matches Some(data) ==> {
            &&& valid_utf8(data) ==> (page_list_spec(list) matches Ok(p) && {
                &&& p.len() == match_count(decode_utf8(data), "$qingtiandy$"@) + 1
                &&& forall|i: int| 0 <= i < p.len() ==> #[trigger] p[i].index == i
                &&& join_seq(p.map_values(|pg: PageView| pg.url), "$qingtiandy$"@) == decode_utf8(data)
            })
            &&& !valid_utf8(data) ==> page_list_spec(list) == Err::<Seq<PageView>, ImageListError>(ImageListError::BadUtf8)
        },
        base64_standard_decode(encode_utf8(list)) is None ==> page_list_spec(list) == Err::<Seq<PageView>, ImageListError>(
            ImageListError::BadBase64,
        ),
{
    reveal_strlit("$qingtiandy$");
    match base64_standard_decode(encode_utf8(list)) {
        Some(data) => {
            if valid_utf8(data) {
                let text = decode_utf8(data);
                let urls = split_seq(text, "$qingtiandy$"@);
                crate::text::law_split_join_roundtrip(text, "$qingtiandy$"@);
                let p = pages_of(urls);
                assert(p.map_values(|pg: PageView| pg.url) =~= urls);
            }
        },
        None => {},
    }
}

/// Chapters are numbered from the end of the page: each comes from the entry `number` places from
/// the end; its id is the last `/`-separated part of the entry's link without `.html`, its title
/// the entry's link title as read, and its address the comic's reading page of that id.
pub proof fn law_chapter_fields(rule: Chapters, nodes: Seq<Option<crate::model::ChapterNodeView>>)
    ensures
        forall|i: int| 0 <= i < crate::assemble::newest_first(crate::assemble::drafts_spec(&rule, nodes).reverse()).len() ==> {
            let c = #[trigger] crate::assemble::newest_first(crate::assemble::drafts_spec(&rule, nodes).reverse())[i];
            let k = nodes.len() - c.number;
            let n = nodes[k]->0;
            &&& 0 <= k < nodes.len()
            &&& nodes[k] is Some
            &&& c.id == crate::text::replace_seq(crate::text::split_seq(n.link, "/"@).last(), ".html"@, ""@)
            &&& c.title == n.label
            &&& c.url == BASE_URL@ + "/manhua/"@ + rule.manga_id@ + "/"@ + c.id + ".html"@
            &&& c.scanlator.len() == 0
        },
{
    let drafts = crate::assemble::drafts_spec(&rule, nodes);
    crate::laws::law_chapter_from_entry(crate::assemble::drafts_spec(&rule, nodes).reverse());
    assert forall|i: int| 0 <= i < crate::assemble::newest_first(crate::assemble::drafts_spec(&rule, nodes).reverse()).len() implies {
            let c = #[trigger] crate::assemble::newest_first(crate::assemble::drafts_spec(&rule, nodes).reverse())[i];
            let k = nodes.len() - c.number;
            let n = nodes[k]->0;
            &&& 0 <= k < nodes.len()
            &&& nodes[k] is Some
            &&& c.id == crate::text::replace_seq(crate::text::split_seq(n.link, "/"@).last(), ".html"@, ""@)
            &&& c.title == n.label
            &&& c.url == BASE_URL@ + "/manhua/"@ + rule.manga_id@ + "/"@ + c.id + ".html"@
            &&& c.scanlator.len() == 0
        } by {
        let c = crate::assemble::newest_first(crate::assemble::drafts_spec(&rule, nodes).reverse())[i];
        let k = nodes.len() - c.number;
        assert(drafts.reverse()[c.number - 1] == drafts[k]);
        crate::laws::lemma_draft_from_node(&rule, nodes, k);
    }
}

/// The comics of a listing are, in order, one per entry that could be read: its id is the entry's
/// link without `/manhua/` and `/`, its cover the entry's image, its title the entry's title.
pub proof fn law_listing_entry_fields(nodes: Seq<Option<crate::model::ListNodeView>>)
    ensures
        crate::assemble::entries_spec(&Entries, nodes).len() == crate::model::somes(nodes).len(),
        forall|i: int| 0 <= i < crate::model::somes(nodes).len() ==> {
            let m = #[trigger] crate::assemble::entries_spec(&Entries, nodes)[i];
            let n = crate::model::somes(nodes)[i];
            &&& m.id == crate::text::replace_seq(crate::text::replace_seq(n.link, "/manhua/"@, ""@), "/"@, ""@)
            &&& m.cover == n.image
            &&& m.title == n.label
        },
{
    crate::laws::law_entries_in_order(&Entries, nodes);
}

/// A comic is completed when its status text mentions 完结, otherwise ongoing when it mentions 连载中,
/// otherwise of unknown status.
pub proof fn law_status_words(id: Seq<char>, cover: Seq<char>, title: Seq<char>, author_text: Seq<char>, description: Seq<char>, status_text: Seq<char>)
    ensures
        ({
            let st = details_spec(id, cover, title, author_text, description, status_text).status;
            let t = status_text;
            &&& crate::text::contains_seq(t, "完结"@) ==> st == crate::model::MangaStatus::Completed
            &&& (!crate::text::contains_seq(t, "完结"@) && crate::text::contains_seq(t, "连载中"@)) ==> st == crate::model::MangaStatus::Ongoing
            &&& (!crate::text::contains_seq(t, "完结"@) && !crate::text::contains_seq(t, "连载中"@)) ==> st == crate::model::MangaStatus::Unknown
        }),
{
}

/// A comic read from its page: the given id, cover and title; the space-separated authors joined
/// with `, `; no artist; the description trimmed and without `漫画简介：`; its page address; no
/// categories; rated safe and read by scrolling.
pub proof fn law_details_fields(id: Seq<char>, cover: Seq<char>, title: Seq<char>, author_text: Seq<char>, description: Seq<char>, status_text: Seq<char>)
    ensures
        ({
            let r = details_spec(id, cover, title, author_text, description, status_text);
            &&& r.id == id
            &&& r.cover == cover
            &&& r.title == title
            &&& r.author == crate::text::join_seq(crate::text::split_seq(crate::text::trim_seq(author_text), " "@), ", "@)
            &&& r.artist.len() == 0
            &&& r.description == crate::text::replace_seq(crate::text::trim_seq(description), "漫画简介："@, ""@)
            &&& r.url == BASE_URL@ + "/manhua/"@ + id + "/"@
            &&& r.categories.len() == 0
            &&& r.nsfw == crate::model::ContentRating::Safe
            &&& r.viewer == crate::model::Viewer::Scroll
        }),
{
}

/// A comic listed with the link `/manhua/<id>/`, with an `<id>` free of `/`, has the id `<id>`, and
/// its page is
/// the site address followed by that link.
pub proof fn law_listed_id_leads_to_page(id: Seq<char>, cover: Seq<char>, title: Seq<char>, author_text: Seq<char>, description: Seq<char>, status_text: Seq<char>, image: Seq<char>, label: Seq<char>)
    requires
        !crate::text::contains_seq(id, "/"@),
    ensures
        Entries.entry_spec(crate::model::ListNodeView { link: "/manhua/"@ + id + "/"@, image, label }).id == id,
        details_spec(id, cover, title, author_text, description, status_text).url == BASE_URL@ + ("/manhua/"@ + id + "/"@),
{
    reveal_strlit("/manhua/");
    reveal_strlit("");
    assert(""@ =~= Seq::<char>::empty());
    assert("/manhua/"@[0] == '/');
    crate::laws::law_strip_slashed("/manhua/"@, id);
    assert(details_spec(id, cover, title, author_text, description, status_text).url =~= BASE_URL@ + ("/manhua/"@ + id + "/"@));
}

} // verus!
