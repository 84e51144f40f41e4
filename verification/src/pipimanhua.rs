//! The pipimanhua source.
use vstd::prelude::*;
use crate::assemble::{
    collect_drafts, collect_entries, collect_pages, drafts_spec, entries_spec, newest_first, number_newest_first,
    paged, status_by, status_by_markers, urls_spec, ChapterRule, EntryRule, PageRule,
};
use crate::filters::{apply_filters, choice_spec, select_table, selects_ok, selects_valid, FilterChoice, SelectTable, SelectTableView};
use crate::model::{
    listed, listed_manga, opt_views, seq_views, Chapter, ChapterDraft, ChapterNode, ChapterNodeView, ContentRating,
    DraftView, Filter, FilterView, ImageNode, ImageNodeView, ListNode, ListNodeView, Manga, MangaPageResult, MangaView,
    Page, Viewer,
};
use crate::text::{
    after_seq, before_seq, contains_seq, dec_int, i32_to_string, replace, replace_seq, split, split_seq, text_after, text_before, trim,
    trim_nonempty, trim_seq, trimmed_nonempty,
};

verus! {

/// The site's address.
pub const BASE_URL: &'static str = "http://www.pipimanhua.com";

/// The select box of the listing: the catalog.
pub open spec fn filter_tables_spec() -> Seq<SelectTableView> {
    seq![
        SelectTableView {
            name: "分类"@,
            values: seq![
                ""@, "1"@, "2"@, "3"@, "4"@, "5"@, "6"@, "7"@, "8"@, "9"@, "10"@, "11"@, "12"@, "13"@, "14"@, "15"@,
                "16"@, "17"@, "18"@,
            ],
        },
    ]
}

/// The select box of the listing.
pub fn filter_tables() -> (r: Vec<SelectTable>)
    ensures
        seq_views(r@) == filter_tables_spec(),
{
    let mut r: Vec<SelectTable> = Vec::new();
    r.push(select_table("分类", &["", "1", "2", "3", "4", "5", "6", "7", "8", "9", "10", "11", "12", "13", "14", "15", "16", "17", "18"]));
    assert(seq_views(r@) =~~= filter_tables_spec());
    r
}

/// Whether every selection names an option of its box.
pub fn filters_valid(filters: &Vec<Filter>) -> (r: bool)
    ensures
        r == selects_ok(filter_tables_spec(), seq_views(filters@)),
{
    selects_valid(filters, &filter_tables())
}

proof fn lemma_choice_picks(filters: Seq<FilterView>)
    ensures
        choice_spec(filter_tables_spec(), filters).picks.len() == 1,
    decreases filters.len(),
{
    if filters.len() > 0 {
        lemma_choice_picks(filters.drop_last());
        match filters.last() {
            FilterView::Select { name, index } => {
                crate::filters::lemma_table_for(filter_tables_spec(), name);
            },
            _ => {},
        }
    }
}

/// The search text and the catalog chosen.
pub fn filter_choice(filters: &Vec<Filter>) -> (r: FilterChoice)
    requires
        selects_ok(filter_tables_spec(), seq_views(filters@)),
    ensures
        r@ == choice_spec(filter_tables_spec(), seq_views(filters@)),
        r@.picks.len() == 1,
{
    proof {
        lemma_choice_picks(seq_views(filters@));
    }
    apply_filters(filters, &filter_tables())
}

/// The listing page of the chosen catalog.
pub fn catalog_url(choice: &FilterChoice, page: i32) -> (r: String)
    requires
        choice@.picks.len() == 1,
    ensures
        r@ == BASE_URL@ + "/sort/"@ + choice@.picks[0] + "/"@ + dec_int(page as int),
{
    let mut r = BASE_URL.to_owned();
    r.append("/sort/");
    r.append(choice.picks[0].as_str());
    r.append("/");
    r.append(i32_to_string(page).as_str());
    r
}

/// The search path written in the home page's search form.
pub open spec fn search_path_spec(home: Seq<char>) -> Option<Seq<char>> {
    match after_seq(home, "action=\""@) {
        Some(a) => before_seq(a, "\"  target=\"_blank\" onsubmit"@),
        None => None,
    }
}

/// The search path written in the home page's search form, when the form is
/// there.
pub fn search_path(home: &str) -> (r: Option<String>)
    ensures
        r matches Some(p) ==> search_path_spec(home@) == Some(p@),
        r is None ==> search_path_spec(home@) is None,
{
    match text_after(home, "action=\"") {
        Some(a) => text_before(a.as_str(), "\"  target=\"_blank\" onsubmit"),
        None => None,
    }
}

/// The search page for a search text (given percent-encoded).
pub fn search_url(path: &str, encoded_query: &str) -> (r: String)
    ensures
        r@ == BASE_URL@ + path@ + "?searchkey="@ + encoded_query@ + "&searchtype=all"@,
{
    let mut r = BASE_URL.to_owned();
    r.append(path);
    r.append("?searchkey=");
    r.append(encoded_query);
    r.append("&searchtype=all");
    r
}

/// How an entry of the listing or of a search (link `href`, image
/// `data-original`, title text) becomes a comic.
pub struct Entries;

impl EntryRule for Entries {
    open spec fn entry_spec(&self, n: ListNodeView) -> MangaView {
        listed(replace_seq(replace_seq(n.link, "/manhua/"@, ""@), "/"@, ""@), n.image, n.label)
    }

    fn entry(&self, n: &ListNode) -> (m: Manga) {
        listed_manga(replace(replace(n.link.as_str(), "/manhua/", "").as_str(), "/", ""), n.image.clone(), n.label.clone())
    }
}

/// A page of the listing or of a search; more pages follow for the listing
/// and not for a search.
pub fn manga_list(choice: &FilterChoice, nodes: &Vec<Option<ListNode>>) -> (r: MangaPageResult)
    ensures
        seq_views(r.manga@) == entries_spec(&Entries, opt_views(nodes@)),
        r.has_more == (choice@.query.len() == 0),
{
    MangaPageResult { manga: collect_entries(&Entries, nodes), has_more: choice.query.as_str().is_empty() }
}

/// The page of a comic.
pub fn manga_url(id: &str) -> (r: String)
    ensures
        r@ == BASE_URL@ + "/manhua/"@ + id@ + "/"@,
{
    let mut r = BASE_URL.to_owned();
    r.append("/manhua/");
    r.append(id);
    r.append("/");
    r
}

/// The comic described by the `og:` meta data of its page; the categories
/// are the `|`-separated parts of the category field.
pub open spec fn details_spec(
    id: Seq<char>,
    cover: Seq<char>,
    title: Seq<char>,
    author: Seq<char>,
    description: Seq<char>,
    category_field: Seq<char>,
    status_text: Seq<char>,
) -> MangaView {
    MangaView {
        id,
        cover,
        title,
        author,
        artist: Seq::empty(),
        description,
        url: BASE_URL@ + "/manhua/"@ + id + "/"@,
        categories: trimmed_nonempty(split_seq(category_field, "|"@)),
        status: status_by(status_text, "全本"@, "连载"@),
        nsfw: ContentRating::Safe,
        viewer: Viewer::Scroll,
    }
}

/// The comic described by the meta data of its page.
pub fn manga_details(
    id: &str,
    cover: &str,
    title: &str,
    author: &str,
    description: &str,
    category_field: &str,
    status_text: &str,
) -> (r: Manga)
    ensures
        r@ == details_spec(id@, cover@, title@, author@, description@, category_field@, status_text@),
{
    let r = Manga {
        id: id.to_owned(),
        cover: cover.to_owned(),
        title: title.to_owned(),
        author: author.to_owned(),
        artist: String::new(),
        description: description.to_owned(),
        url: manga_url(id),
        categories: trim_nonempty(&split(category_field, "|")),
        status: status_by_markers(status_text, "全本", "连载"),
        nsfw: ContentRating::Safe,
        viewer: Viewer::Scroll,
    };
    assert(r@ =~= details_spec(id@, cover@, title@, author@, description@, category_field@, status_text@));
    r
}

/// The reading page of a chapter.
pub fn chapter_url(manga_id: &str, chapter_id: &str) -> (r: String)
    ensures
        r@ == BASE_URL@ + "/read/"@ + manga_id@ + "/"@ + chapter_id@ + ".html"@,
{
    let mut r = BASE_URL.to_owned();
    r.append("/read/");
    r.append(manga_id);
    r.append("/");
    r.append(chapter_id);
    r.append(".html");
    r
}

/// How a chapter entry (link `href`, title text) of a comic becomes a
/// chapter: the id is the link without `/read/<comic>/` and `.html`.
pub struct Chapters {
    pub manga_id: String,
}

impl ChapterRule for Chapters {
    open spec fn draft_spec(&self, n: ChapterNodeView) -> Option<DraftView> {
        let id = replace_seq(replace_seq(n.link, "/read/"@ + self.manga_id@ + "/"@, ""@), ".html"@, ""@);
        Some(DraftView {
            id,
            title: trim_seq(n.label),
            scanlator: Seq::empty(),
            url: BASE_URL@ + "/read/"@ + self.manga_id@ + "/"@ + id + ".html"@,
        })
    }

    fn draft(&self, n: &ChapterNode) -> (d: Option<ChapterDraft>) {
        let mut prefix = "/read/".to_owned();
        prefix.append(self.manga_id.as_str());
        prefix.append("/");
        let id = replace(replace(n.link.as_str(), prefix.as_str(), "").as_str(), ".html", "");
        let url = chapter_url(self.manga_id.as_str(), id.as_str());
        let d = ChapterDraft { id, title: trim(n.label.as_str()), scanlator: String::new(), url };
        assert(self.draft_spec(n@) == Some(d@));
        Some(d)
    }
}

/// The chapters of a comic, newest first.
pub fn chapter_list(rule: &Chapters, nodes: &Vec<Option<ChapterNode>>) -> (r: Vec<Chapter>)
    ensures
        seq_views(r@) == newest_first(drafts_spec(rule, opt_views(nodes@))),
{
    number_newest_first(&collect_drafts(rule, nodes))
}

/// How an image gives its address: its `data-original` unless that is
/// empty, else its `src`.
pub struct Pages;

impl PageRule for Pages {
    open spec fn url_spec(&self, n: ImageNodeView) -> Seq<char> {
        if n.primary.len() == 0 {
            n.fallback
        } else {
            n.primary
        }
    }

    fn url(&self, n: &ImageNode) -> (u: String) {
        if n.primary.as_str().is_empty() {
            n.fallback.clone()
        } else {
            n.primary.clone()
        }
    }
}

/// The pages of a chapter, one per image that could be read.
pub fn page_list(nodes: &Vec<Option<ImageNode>>) -> (r: Vec<Page>)
    ensures
        seq_views(r@) == paged(urls_spec(&Pages, opt_views(nodes@))),
{
    collect_pages(&Pages, nodes)
}

/// A chapter linked as `/read/<comic>/<c>.html` gets the id `c`, and its
/// address is the site address followed by that link, when `c` contains
/// neither `/read/<comic>/` nor `.html`.
pub proof fn law_chapter_link_roundtrip(manga_id: String, c: Seq<char>, label: Seq<char>, extra: Seq<char>)
    requires
        !contains_seq(c, "/read/"@ + manga_id@ + "/"@),
        !contains_seq(c, ".html"@),
    ensures
        ({
            let link = "/read/"@ + manga_id@ + "/"@ + c + ".html"@;
            (Chapters { manga_id }).draft_spec(ChapterNodeView { link, label, extra }) == Some(DraftView {
                id: c,
                title: trim_seq(label),
                scanlator: Seq::empty(),
                url: BASE_URL@ + link,
            })
        }),
{
    reveal_strlit("/read/");
    reveal_strlit("/");
    reveal_strlit(".html");
    reveal_strlit("");
    let prefix = "/read/"@ + manga_id@ + "/"@;
    let h = ".html"@;
    let link = prefix + c + h;
    assert(""@ =~= Seq::<char>::empty());
    assert(prefix.last() == '/');
    crate::laws::lemma_no_occurrence_across(c, h, prefix);
    assert(link =~= prefix + (c + h));
    crate::laws::law_strip_prefix(prefix, c + h);
    assert forall|j: int| 0 <= j < c.len() implies !crate::text::occurs_at(c + h, h, j) by {
        if crate::text::occurs_at(c + h, h, j) {
            if j + h.len() <= c.len() {
                assert(c.subrange(j, j + h.len()) =~= (c + h).subrange(j, j + h.len()));
                crate::laws::lemma_occurs_found(c, h, j);
            } else {
                assert((c + h)[c.len() as int] == (c + h).subrange(j, j + h.len())[c.len() - j]);
            }
        }
    }
    crate::laws::law_strip_suffix(c, h);
    assert(BASE_URL@ + "/read/"@ + manga_id@ + "/"@ + c + ".html"@ =~= BASE_URL@ + link);
}

/// Each page's address is the `data-original` of the image at the page's index, or its `src` when
/// that is empty.
pub proof fn law_page_address(nodes: Seq<Option<crate::model::ImageNodeView>>)
    ensures
        forall|i: int| 0 <= i < crate::assemble::paged(crate::assemble::urls_spec(&Pages, nodes)).len() ==> {
            let p = #[trigger] crate::assemble::paged(crate::assemble::urls_spec(&Pages, nodes))[i];
            let n = nodes[p.index as int]->0;
            &&& p.index < nodes.len()
            &&& nodes[p.index as int] is Some
            &&& p.url == (if n.primary.len() == 0 { n.fallback } else { n.primary })
        },
{
    crate::laws::law_page_from_image(&Pages, nodes);
}

/// Each chapter comes from the entry at position `number - 1`: its id is the entry's link without
/// `/read/<comic>/` and `.html`, its title the entry's trimmed title text, and its address the
/// comic's reading page of that id.
pub proof fn law_chapter_fields(rule: Chapters, nodes: Seq<Option<crate::model::ChapterNodeView>>)
    ensures
        forall|i: int| 0 <= i < crate::assemble::newest_first(crate::assemble::drafts_spec(&rule, nodes)).len() ==> {
            let c = #[trigger] crate::assemble::newest_first(crate::assemble::drafts_spec(&rule, nodes))[i];
            let k = c.number - 1;
            let n = nodes[k]->0;
            &&& 0 <= k < nodes.len()
            &&& nodes[k] is Some
            &&& c.id == crate::text::replace_seq(crate::text::replace_seq(n.link, "/read/"@ + rule.manga_id@ + "/"@, ""@), ".html"@, ""@)
            &&& c.title == crate::text::trim_seq(n.label)
            &&& c.url == BASE_URL@ + "/read/"@ + rule.manga_id@ + "/"@ + c.id + ".html"@
            &&& c.scanlator.len() == 0
        },
{
    crate::laws::law_chapter_from_entry(crate::assemble::drafts_spec(&rule, nodes));
    assert forall|i: int| 0 <= i < crate::assemble::newest_first(crate::assemble::drafts_spec(&rule, nodes)).len() implies {
            let c = #[trigger] crate::assemble::newest_first(crate::assemble::drafts_spec(&rule, nodes))[i];
            let k = c.number - 1;
            let n = nodes[k]->0;
            &&& 0 <= k < nodes.len()
            &&& nodes[k] is Some
            &&& c.id == crate::text::replace_seq(crate::text::replace_seq(n.link, "/read/"@ + rule.manga_id@ + "/"@, ""@), ".html"@, ""@)
            &&& c.title == crate::text::trim_seq(n.label)
            &&& c.url == BASE_URL@ + "/read/"@ + rule.manga_id@ + "/"@ + c.id + ".html"@
            &&& c.scanlator.len() == 0
        } by {
        let c = crate::assemble::newest_first(crate::assemble::drafts_spec(&rule, nodes))[i];
        let k = c.number - 1;
        crate::laws::lemma_draft_from_node(&rule, nodes, k);
    }
}

/// The comics of a listing are, in order, one per entry that could be read: its id is the entry's
/// link without `/manhua/` and `/`, its cover the entry's image, its title the entry's title.
pub proof fn law_listing_entry_fields(nodes: Seq<Option<crate::model::ListNodeView>>)
    ensures
        crate::assemble::entries_spec(&Entries, nodes).len() == crate::model::somes(nodes).len(),
        forall|i: int| 0 <= i < crate::model::somes(nodes).len() ==> {
            let m = #[trigger] crate::assemble::entries_spec(&Entries, nodes)[i];
            let n = crate::model::somes(nodes)[i];
            &&& m.id == crate::text::replace_seq(crate::text::replace_seq(n.link, "/manhua/"@, ""@), "/"@, ""@)
            &&& m.cover == n.image
            &&& m.title == n.label
        },
{
    crate::laws::law_entries_in_order(&Entries, nodes);
}

/// A comic is completed when its status text mentions 全本, otherwise ongoing when it mentions 连载,
/// otherwise of unknown status.
pub proof fn law_status_words(id: Seq<char>, cover: Seq<char>, title: Seq<char>, author: Seq<char>, description: Seq<char>, category_field: Seq<char>, status_text: Seq<char>)
    ensures
        ({
            let st = details_spec(id, cover, title, author, description, category_field, status_text).status;
            let t = status_text;
            &&& crate::text::contains_seq(t, "全本"@) ==> st == crate::model::MangaStatus::Completed
            &&& (!crate::text::contains_seq(t, "全本"@) && crate::text::contains_seq(t, "连载"@)) ==> st == crate::model::MangaStatus::Ongoing
            &&& (!crate::text::contains_seq(t, "全本"@) && !crate::text::contains_seq(t, "连载"@)) ==> st == crate::model::MangaStatus::Unknown
        }),
{
}

/// Each select box maps option `i` to the `i`-th of the site's values for it; a lone selection sets
/// that box's value.
pub proof fn law_filter_options(i: i64)
    ensures
        0 <= i < 19 ==> crate::filters::choice_spec(filter_tables_spec(), seq![crate::model::FilterView::Select { name: "分类"@, index: i }]).picks[0]
            == seq![""@, "1"@, "2"@, "3"@, "4"@, "5"@, "6"@, "7"@, "8"@, "9"@, "10"@, "11"@, "12"@, "13"@, "14"@, "15"@, "16"@, "17"@, "18"@][i as int],
{
    reveal_strlit("分类");
    let t = filter_tables_spec();
    let names = seq!["分类"@];
    assert forall|a: int, c: int| 0 <= a < names.len() && 0 <= c < names.len() && a != c implies #[trigger] names[a]
        != #[trigger] names[c] by {
        assert(names[a][0] != names[c][0]);
    }
    assert(forall|a: int| 0 <= a < t.len() ==> #[trigger] t[a].name == names[a]);
    crate::filters::lemma_table_hit(t, names, 0, 0);
    if 0 <= i < 19 {
        crate::filters::law_lone_selection(t, 0, i);
    }
}

/// A comic read from its page: the given id, cover, title, author and description; no artist; its
/// page address; its categories the non-empty trimmed `|`-separated parts of the category field;
/// rated safe and read by scrolling.
pub proof fn law_details_fields(id: Seq<char>, cover: Seq<char>, title: Seq<char>, author: Seq<char>, description: Seq<char>, category_field: Seq<char>, status_text: Seq<char>)
    ensures
        ({
            let r = details_spec(id, cover, title, author, description, category_field, status_text);
            &&& r.id == id
            &&& r.cover == cover
            &&& r.title == title
            &&& r.author == author
            &&& r.artist.len() == 0
            &&& r.description == description
            &&& r.url == BASE_URL@ + "/manhua/"@ + id + "/"@
            &&& r.categories == crate::text::trimmed_nonempty(crate::text::split_seq(category_field, "|"@))
            &&& r.nsfw == crate::model::ContentRating::Safe
            &&& r.viewer == crate::model::Viewer::Scroll
        }),
{
}

/// A comic listed with the link `/manhua/<id>/`, with an `<id>` free of `/`, has the id `<id>`, and
/// its page is
/// the site address followed by that link.
pub proof fn law_listed_id_leads_to_page(id: Seq<char>, cover: Seq<char>, title: Seq<char>, author: Seq<char>, description: Seq<char>, category_field: Seq<char>, status_text: Seq<char>, image: Seq<char>, label: Seq<char>)
    requires
        !crate::text::contains_seq(id, "/"@),
    ensures
        Entries.entry_spec(crate::model::ListNodeView { link: "/manhua/"@ + id + "/"@, image, label }).id == id,
        details_spec(id, cover, title, author, description, category_field, status_text).url == BASE_URL@ + ("/manhua/"@ + id + "/"@),
{
    reveal_strlit("/manhua/");
    reveal_strlit("");
    assert(""@ =~= Seq::<char>::empty());
    assert("/manhua/"@[0] == '/');
    crate::laws::law_strip_slashed("/manhua/"@, id);
    assert(details_spec(id, cover, title, author, description, category_field, status_text).url =~= BASE_URL@ + ("/manhua/"@ + id + "/"@));
}

} // verus!
