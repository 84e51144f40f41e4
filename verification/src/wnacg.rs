//! The wnacg source. Its address is a user setting, passed in as `base`.
use vstd::prelude::*;
use crate::assemble::{collect_entries, entries_spec, pages_from_urls, pages_of, EntryRule};
use crate::filters::{apply_filters, choice_spec, FilterChoice, SelectTable, SelectTableView};
use crate::model::{
    listed, listed_manga, opt_views, seq_views, Chapter, ChapterView, ContentRating, Filter, ListNode, ListNodeView,
    Manga, MangaPageResult, MangaStatus, MangaView, Page, Viewer,
};
use crate::text::{
    after_seq, before_seq, concatenate, contains_seq, dec_int, i32_to_string, join, join_seq, last_piece, replace, replace_seq, split,
    split_seq, text_after, text_before, text_eq, trim, trim_each, trim_nonempty, trim_seq, trimmed_nonempty, views,
};

verus! {

/// The search text of the filters (the last title filter; empty if none).
pub fn filter_choice(filters: &Vec<Filter>) -> (r: FilterChoice)
    ensures
        r@ == choice_spec(Seq::<SelectTableView>::empty(), seq_views(filters@)),
{
    let tables: Vec<SelectTable> = Vec::new();
    assert(seq_views(tables@) =~= Seq::<SelectTableView>::empty());
    apply_filters(filters, &tables)
}

/// The album index, or the search page for the search text (given
/// percent-encoded as `encoded`) when there is one.
pub open spec fn list_address_spec(base: Seq<char>, query: Seq<char>, encoded: Seq<char>, page: int) -> Seq<char> {
    if query.len() == 0 {
        base + "/albums-index-page-"@ + dec_int(page) + ".html"@
    } else {
        base + "/search/index.php?q="@ + encoded + "&m=&syn=yes&f=_all&s=create_time_DESC&p="@ + dec_int(page)
    }
}

/// The album index, or the search page for the search text (given
/// percent-encoded) when there is one.
pub fn manga_list_url(base: &str, choice: &FilterChoice, encoded_query: &str, page: i32) -> (r: String)
    ensures
        r@ == list_address_spec(base@, choice@.query, encoded_query@, page as int),
{
    let mut r = base.to_owned();
    if choice.query.as_str().is_empty() {
        r.append("/albums-index-page-");
        r.append(i32_to_string(page).as_str());
        r.append(".html");
    } else {
        r.append("/search/index.php?q=");
        r.append(encoded_query);
        r.append("&m=&syn=yes&f=_all&s=create_time_DESC&p=");
        r.append(i32_to_string(page).as_str());
    }
    r
}

/// The album id in a link: the part after the last `-`, without `.html`.
pub open spec fn album_id(link: Seq<char>) -> Seq<char> {
    replace_seq(split_seq(link, "-"@).last(), ".html"@, ""@)
}

/// The album id in a link.
pub fn album_id_of(link: &str) -> (r: String)
    ensures
        r@ == album_id(link@),
{
    replace(last_piece(link, "-").as_str(), ".html", "")
}

/// How an entry of the index or of a search (link `href`, image `src`, link
/// `title`) becomes a comic; search hits are marked with `<em>` in titles,
/// which is removed.
pub struct Entries;

impl EntryRule for Entries {
    open spec fn entry_spec(&self, n: ListNodeView) -> MangaView {
        listed(album_id(n.link), "https:"@ + n.image, replace_seq(replace_seq(trim_seq(n.label), "<em>"@, ""@), "</em>"@, ""@))
    }

    fn entry(&self, n: &ListNode) -> (m: Manga) {
        let title = replace(replace(trim(n.label.as_str()).as_str(), "<em>", "").as_str(), "</em>", "");
        listed_manga(album_id_of(n.link.as_str()), concatenate("https:", n.image.as_str()), title)
    }
}

/// A page of the index or of a search; more pages always follow.
pub fn manga_list(nodes: &Vec<Option<ListNode>>) -> (r: MangaPageResult)
    ensures
        seq_views(r.manga@) == entries_spec(&Entries, opt_views(nodes@)),
        r.has_more,
{
    MangaPageResult { manga: collect_entries(&Entries, nodes), has_more: true }
}

/// The category id of a named listing, if the listing is one of the site's
/// categories.
pub open spec fn listing_category_spec(name: Seq<char>) -> Option<Seq<char>> {
    if name == "同人誌(全部)"@ {
        Some("5"@)
    } else if name == "同人誌-漢化"@ {
        Some("1"@)
    } else if name == "同人誌-日語"@ {
        Some("12"@)
    } else if name == "同人誌-English"@ {
        Some("16"@)
    } else if name == "同人誌-CG畫集"@ {
        Some("2"@)
    } else if name == "同人誌-3D漫畫"@ {
        Some("22"@)
    } else if name == "同人誌-Cosplay"@ {
        Some("3"@)
    } else if name == "單行本(全部)"@ {
        Some("6"@)
    } else if name == "單行本-漢化"@ {
        Some("9"@)
    } else if name == "單行本-日語"@ {
        Some("13"@)
    } else if name == "單行本-English"@ {
        Some("17"@)
    } else if name == "雜誌&短篇(全部)"@ {
        Some("7"@)
    } else if name == "雜誌&短篇-漢化"@ {
        Some("10"@)
    } else if name == "雜誌&短篇-日語"@ {
        Some("14"@)
    } else if name == "雜誌&短篇-English"@ {
        Some("18"@)
    } else if name == "韓漫(全部)"@ {
        Some("19"@)
    } else if name == "韓漫-漢化"@ {
        Some("20"@)
    } else if name == "韓漫-其他"@ {
        Some("21"@)
    } else {
        None
    }
}

/// The category id of a named listing; `None` for any other name (such a
/// listing shows the plain album index).
pub fn listing_category(name: &str) -> (r: Option<String>)
    ensures
        r matches Some(c) ==> listing_category_spec(name@) == Some(c@),
        r is None ==> listing_category_spec(name@) is None,
{
    if text_eq(name, "同人誌(全部)") {
        Some("5".to_owned())
    } else if text_eq(name, "同人誌-漢化") {
        Some("1".to_owned())
    } else if text_eq(name, "同人誌-日語") {
        Some("12".to_owned())
    } else if text_eq(name, "同人誌-English") {
        Some("16".to_owned())
    } else if text_eq(name, "同人誌-CG畫集") {
        Some("2".to_owned())
    } else if text_eq(name, "同人誌-3D漫畫") {
        Some("22".to_owned())
    } else if text_eq(name, "同人誌-Cosplay") {
        Some("3".to_owned())
    } else if text_eq(name, "單行本(全部)") {
        Some("6".to_owned())
    } else if text_eq(name, "單行本-漢化") {
        Some("9".to_owned())
    } else if text_eq(name, "單行本-日語") {
        Some("13".to_owned())
    } else if text_eq(name, "單行本-English") {
        Some("17".to_owned())
    } else if text_eq(name, "雜誌&短篇(全部)") {
        Some("7".to_owned())
    } else if text_eq(name, "雜誌&短篇-漢化") {
        Some("10".to_owned())
    } else if text_eq(name, "雜誌&短篇-日語") {
        Some("14".to_owned())
    } else if text_eq(name, "雜誌&短篇-English") {
        Some("18".to_owned())
    } else if text_eq(name, "韓漫(全部)") {
        Some("19".to_owned())
    } else if text_eq(name, "韓漫-漢化") {
        Some("20".to_owned())
    } else if text_eq(name, "韓漫-其他") {
        Some("21".to_owned())
    } else {
        None
    }
}

/// The index page of a category.
pub fn listing_url(base: &str, cate_id: &str, page: i32) -> (r: String)
    ensures
        r@ == base@ + "/albums-index-page-"@ + dec_int(page as int) + "-cate-"@ + cate_id@ + ".html"@,
{
    let mut r = base.to_owned();
    r.append("/albums-index-page-");
    r.append(i32_to_string(page).as_str());
    r.append("-cate-");
    r.append(cate_id);
    r.append(".html");
    r
}

/// How an entry of a category index becomes a comic (titles are only
/// trimmed there).
pub struct ListingEntries;

impl EntryRule for ListingEntries {
    open spec fn entry_spec(&self, n: ListNodeView) -> MangaView {
        listed(album_id(n.link), "https:"@ + n.image, trim_seq(n.label))
    }

    fn entry(&self, n: &ListNode) -> (m: Manga) {
        listed_manga(album_id_of(n.link.as_str()), concatenate("https:", n.image.as_str()), trim(n.label.as_str()))
    }
}

/// A page of a category index; more pages always follow.
pub fn listing(nodes: &Vec<Option<ListNode>>) -> (r: MangaPageResult)
    ensures
        seq_views(r.manga@) == entries_spec(&ListingEntries, opt_views(nodes@)),
        r.has_more,
{
    MangaPageResult { manga: collect_entries(&ListingEntries, nodes), has_more: true }
}

/// The page shown for a named listing: the category's index when the name
/// is one of the site's categories, else the plain album index.
pub open spec fn listing_address_spec(base: Seq<char>, name: Seq<char>, page: int) -> Seq<char> {
    match listing_category_spec(name) {
        Some(c) => base + "/albums-index-page-"@ + dec_int(page) + "-cate-"@ + c + ".html"@,
        None => base + "/albums-index-page-"@ + dec_int(page) + ".html"@,
    }
}

/// The page shown for a named listing.
pub fn listing_address(base: &str, name: &str, page: i32) -> (r: String)
    ensures
        r@ == listing_address_spec(base@, name@, page as int),
{
    match listing_category(name) {
        Some(c) => listing_url(base, c.as_str(), page),
        None => {
            let mut r = base.to_owned();
            r.append("/albums-index-page-");
            r.append(i32_to_string(page).as_str());
            r.append(".html");
            r
        },
    }
}

/// The comics of a named listing's page: read as a category index when the
/// name is a category, else as the plain album index.
pub open spec fn listing_entries_spec(name: Seq<char>, nodes: Seq<Option<ListNodeView>>) -> Seq<MangaView> {
    if listing_category_spec(name) is Some {
        entries_spec(&ListingEntries, nodes)
    } else {
        entries_spec(&Entries, nodes)
    }
}

/// The comics of a named listing's page; more pages always follow.
pub fn listing_page(name: &str, nodes: &Vec<Option<ListNode>>) -> (r: MangaPageResult)
    ensures
        seq_views(r.manga@) == listing_entries_spec(name@, opt_views(nodes@)),
        r.has_more,
{
    match listing_category(name) {
        Some(_) => listing(nodes),
        None => manga_list(nodes),
    }
}

/// A listing whose name is none of the site's categories is the plain album
/// listing: the same address as a listing without filters, read the same
/// way (titles lose their `<em>` marks).
pub proof fn law_unknown_listing_is_index(
    base: Seq<char>,
    name: Seq<char>,
    encoded: Seq<char>,
    page: int,
    nodes: Seq<Option<ListNodeView>>,
)
    requires
        listing_category_spec(name) is None,
    ensures
        choice_spec(Seq::<SelectTableView>::empty(), Seq::empty()).query.len() == 0,
        listing_address_spec(base, name, page) == list_address_spec(
            base,
            choice_spec(Seq::<SelectTableView>::empty(), Seq::empty()).query,
            encoded,
            page,
        ),
        listing_entries_spec(name, nodes) == entries_spec(&Entries, nodes),
{
}

/// The page of an album.
pub fn manga_url(base: &str, id: &str) -> (r: String)
    ensures
        r@ == base@ + "/photos-index-aid-"@ + id@ + ".html"@,
{
    let mut r = base.to_owned();
    r.append("/photos-index-aid-");
    r.append(id);
    r.append(".html");
    r
}

/// The authors of an album: its category label without the `分類：` prefix,
/// split on `&` and `／`, each part trimmed, joined with `, `.
pub open spec fn authors_spec(label: Seq<char>) -> Seq<char> {
    join_seq(
        split_seq(replace_seq(replace_seq(trim_seq(label), "分類："@, ""@), "&"@, "／"@), "／"@).map_values(
            |p: Seq<char>| trim_seq(p),
        ),
        ", "@,
    )
}

/// The album described on its page.
pub open spec fn details_spec(
    base: Seq<char>,
    id: Seq<char>,
    cover: Seq<char>,
    title: Seq<char>,
    category_label: Seq<char>,
    description: Seq<char>,
    tags: Seq<Seq<char>>,
) -> MangaView {
    MangaView {
        id,
        cover: "https://"@ + replace_seq(cover, "//"@, ""@),
        title: trim_seq(title),
        author: authors_spec(category_label),
        artist: Seq::empty(),
        description: replace_seq(trim_seq(description), "簡介："@, ""@),
        url: base + "/photos-index-aid-"@ + id + ".html"@,
        categories: trimmed_nonempty(tags),
        status: MangaStatus::Unknown,
        nsfw: ContentRating::Nsfw,
        viewer: Viewer::Vertical,
    }
}

/// The album described on its page.
pub fn manga_details(
    base: &str,
    id: &str,
    cover: &str,
    title: &str,
    category_label: &str,
    description: &str,
    tags: &Vec<String>,
) -> (r: Manga)
    ensures
        r@ == details_spec(base@, id@, cover@, title@, category_label@, description@, views(tags@)),
{
    let cleaned = replace(replace(trim(category_label).as_str(), "分類：", "").as_str(), "&", "／");
    let parts = trim_each(&split(cleaned.as_str(), "／"));
    let r = Manga {
        id: id.to_owned(),
        cover: concatenate("https://", replace(cover, "//", "").as_str()),
        title: trim(title),
        author: join(&parts, ", "),
        artist: String::new(),
        description: replace(trim(description).as_str(), "簡介：", ""),
        url: manga_url(base, id),
        categories: trim_nonempty(tags),
        status: MangaStatus::Unknown,
        nsfw: ContentRating::Nsfw,
        viewer: Viewer::Vertical,
    };
    assert(r@ =~= details_spec(base@, id@, cover@, title@, category_label@, description@, views(tags@)));
    r
}

/// An album has one chapter: its pages, titled with the page count label
/// (without `頁數：`), numbered 1.
pub fn chapter_list(base: &str, id: &str, page_count_label: &str) -> (r: Vec<Chapter>)
    ensures
        seq_views(r@) == seq![ChapterView {
            id: id@,
            title: replace_seq(trim_seq(page_count_label@), "頁數："@, ""@),
            number: 1,
            scanlator: Seq::empty(),
            url: base@ + "/photos-list-aid-"@ + id@ + ".html"@,
        }],
{
    let mut url = base.to_owned();
    url.append("/photos-list-aid-");
    url.append(id);
    url.append(".html");
    let c = Chapter {
        id: id.to_owned(),
        title: replace(trim(page_count_label).as_str(), "頁數：", ""),
        number: 1,
        scanlator: String::new(),
        url,
    };
    let mut r: Vec<Chapter> = Vec::new();
    r.push(c);
    assert(seq_views(r@) =~= seq![c@]);
    r
}

/// The page whose script lists the images of an album.
pub fn page_list_url(base: &str, manga_id: &str) -> (r: String)
    ensures
        r@ == base@ + "/photos-item-aid-"@ + manga_id@ + ".html"@,
{
    let mut r = base.to_owned();
    r.append("/photos-item-aid-");
    r.append(manga_id);
    r.append(".html");
    r
}

/// The JSON array of image addresses in that script: the text after
/// `"page_url":` up to the trailing `,]`, closed with `]`.
pub open spec fn page_list_json_spec(text: Seq<char>) -> Option<Seq<char>> {
    match after_seq(text, "\"page_url\":"@) {
        Some(a) => match before_seq(a, ",]"@) {
            Some(b) => Some(b + "]"@),
            None => None,
        },
        None => None,
    }
}

/// The JSON array of image addresses, when its markers are there.
pub fn page_list_json(text: &str) -> (r: Option<String>)
    ensures
        r matches Some(t) ==> page_list_json_spec(text@) == Some(t@),
        r is None ==> page_list_json_spec(text@) is None,
{
    match text_after(text, "\"page_url\":") {
        Some(a) => match text_before(a.as_str(), ",]") {
            Some(b) => Some(concatenate(b.as_str(), "]")),
            None => None,
        },
        None => None,
    }
}

/// The pages of an album: one per image address, in order.
pub fn page_list(urls: Vec<String>) -> (r: Vec<Page>)
    ensures
        seq_views(r@) == pages_of(views(urls@)),
{
    pages_from_urls(urls)
}

/// An album linked as `/photos-index-aid-<id>.html`, with an `<id>` free of
/// `-` and `.html`, has the id `<id>`.
pub proof fn law_album_id_of_link(id: Seq<char>)
    requires
        !contains_seq(id, "-"@),
        !contains_seq(id, ".html"@),
    ensures
        album_id("/photos-index-aid-"@ + id + ".html"@) == id,
{
    reveal_strlit("/photos-index-aid-");
    reveal_strlit("/photos-index-aid");
    reveal_strlit("-");
    reveal_strlit(".html");
    reveal_strlit("");
    assert(""@ =~= Seq::<char>::empty());
    let y = id + ".html"@;
    assert(("-"@).last() == '-');
    crate::laws::lemma_no_occurrence_across(id, ".html"@, "-"@);
    assert("/photos-index-aid-"@ + id + ".html"@ =~= "/photos-index-aid"@ + "-"@ + y);
    crate::laws::law_split_last_piece("/photos-index-aid"@, "-"@, y);
    crate::laws::law_strip_html(id);
}

/// An entry of a category listing gets the same album id and cover as the
/// same entry of the plain index; only the `<em>` marks of search hits are
/// left in its title, which is otherwise trimmed the same way.
pub proof fn law_listing_entries_like_index(n: ListNodeView)
    ensures
        ListingEntries.entry_spec(n).id == Entries.entry_spec(n).id,
        ListingEntries.entry_spec(n).id == album_id(n.link),
        ListingEntries.entry_spec(n).cover == Entries.entry_spec(n).cover,
        ListingEntries.entry_spec(n).cover == "https:"@ + n.image,
        ListingEntries.entry_spec(n).title == trim_seq(n.label),
        Entries.entry_spec(n).title == replace_seq(replace_seq(ListingEntries.entry_spec(n).title, "<em>"@, ""@), "</em>"@, ""@),
{
}

/// The comics of a listing are, in order, one per entry that could be read: its id is the entry's
/// album id in the link, its cover the entry's image after `https:`, its title the entry's trimmed
/// title without `<em>` marks.
pub proof fn law_listing_entry_fields(nodes: Seq<Option<crate::model::ListNodeView>>)
    ensures
        crate::assemble::entries_spec(&Entries, nodes).len() == crate::model::somes(nodes).len(),
        forall|i: int| 0 <= i < crate::model::somes(nodes).len() ==> {
            let m = #[trigger] crate::assemble::entries_spec(&Entries, nodes)[i];
            let n = crate::model::somes(nodes)[i];
            &&& m.id == album_id(n.link)
            &&& m.cover == "https:"@ + n.image
            &&& m.title == crate::text::replace_seq(crate::text::replace_seq(crate::text::trim_seq(n.label), "<em>"@, ""@), "</em>"@, ""@)
        },
{
    crate::laws::law_entries_in_order(&Entries, nodes);
}

/// An album read from its page: the given id; the cover address made
/// absolute with `https://` (its `//` removed); the title trimmed; the
/// category label trimmed, without `分類：`, split on `&` and `／`, each part
/// trimmed, joined with `, ` as authors; no artist; the description trimmed
/// and without `簡介：`; its page address; status unknown; rated adult and
/// read vertically; every tag non-empty and trimmed.
pub proof fn law_details_fields(
    base: Seq<char>,
    id: Seq<char>,
    cover: Seq<char>,
    title: Seq<char>,
    category_label: Seq<char>,
    description: Seq<char>,
    tags: Seq<Seq<char>>,
)
    ensures
        ({
            let r = details_spec(base, id, cover, title, category_label, description, tags);
            &&& r.id == id
            &&& r.cover == "https://"@ + crate::text::replace_seq(cover, "//"@, ""@)
            &&& r.title == crate::text::trim_seq(title)
            &&& r.author == crate::text::join_seq(crate::text::split_seq(crate::text::replace_seq(crate::text::replace_seq(crate::text::trim_seq(category_label), "分類："@, ""@), "&"@, "／"@), "／"@).map_values(|p: Seq<char>| crate::text::trim_seq(p)), ", "@)
            &&& r.artist.len() == 0
            &&& r.description == crate::text::replace_seq(crate::text::trim_seq(description), "簡介："@, ""@)
            &&& r.url == base + "/photos-index-aid-"@ + id + ".html"@
            &&& r.status == crate::model::MangaStatus::Unknown
            &&& r.nsfw == crate::model::ContentRating::Nsfw
            &&& r.viewer == crate::model::Viewer::Vertical
            &&& forall|i: int| 0 <= i < r.categories.len() ==> (#[trigger] r.categories[i]).len() > 0 && crate::text::trim_seq(r.categories[i]) == r.categories[i]
        }),
{
    crate::text::law_trimmed_nonempty_clean(tags);
}

/// An album listed with the link `/photos-index-aid-<id>.html`, with an
/// `<id>` free of `-` and `.html`, has the id `<id>` in the plain index and in
/// category listings alike, and its page is the site address followed by
/// that link.
pub proof fn law_listed_id_leads_to_page(
    base: Seq<char>,
    id: Seq<char>,
    cover: Seq<char>,
    title: Seq<char>,
    category_label: Seq<char>,
    description: Seq<char>,
    tags: Seq<Seq<char>>,
    image: Seq<char>,
    label: Seq<char>,
)
    requires
        !crate::text::contains_seq(id, "-"@),
        !crate::text::contains_seq(id, ".html"@),
    ensures
        Entries.entry_spec(ListNodeView { link: "/photos-index-aid-"@ + id + ".html"@, image, label }).id == id,
        ListingEntries.entry_spec(ListNodeView { link: "/photos-index-aid-"@ + id + ".html"@, image, label }).id == id,
        details_spec(base, id, cover, title, category_label, description, tags).url == base + ("/photos-index-aid-"@ + id
            + ".html"@),
{
    law_album_id_of_link(id);
    assert(details_spec(base, id, cover, title, category_label, description, tags).url =~= base + ("/photos-index-aid-"@
        + id + ".html"@));
}

} // verus!
