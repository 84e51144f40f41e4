//! The favcomic source: addresses, session handling, filters, and the
//! reading of its listing, detail, chapter and image pages.
use vstd::prelude::*;
use crate::assemble::{
    collect_drafts, collect_entries, collect_pages, entries_spec, newest_first, drafts_spec, paged,
    urls_spec, number_newest_first, status_by, status_by_markers, ChapterRule, EntryRule, PageRule,
};
use crate::filters::{apply_filters, choice_spec, select_table, selects_ok, selects_valid, ChoiceView, FilterChoice, SelectTable, SelectTableView};
use crate::http::{header, HeaderView, HttpRequest, HttpRequestView, Method};
use crate::model::{
    listed, opt_views, seq_views, Chapter, ChapterDraft, ChapterNode, ChapterNodeView, ContentRating, FilterView,
    DraftView, Filter, ImageNode, ImageNodeView, ListNode, ListNodeView, Manga, MangaPageResult, MangaStatus,
    MangaView, Page, Viewer, listed_manga,
};
use crate::text::{
    concatenate, contains, contains_seq, dec_int, lemma_parse_dec_thousand, i32_to_string, i64_to_string, join, join_seq, parse_i64,
    parse_i64_seq, replace, replace_seq, text_eq, trim, trim_nonempty, trim_seq, trimmed_nonempty, views,
};

verus! {

/// The site's web address.
pub const WWW_URL: &'static str = "https://www.favcomic.com";

/// The address of the site's programming interface.
pub const API_URL: &'static str = "https://api.favcomic.com";

/// The browser identity the site is asked with.
pub const USER_AGENT: &'static str = "Mozilla/5.0 (Macintosh; Intel Mac OS X 10_15_7) AppleWebKit/537.36 (KHTML, like Gecko) Chrome/124.0.0.0 Safari/537.36";

/// The content types the site is asked for.
pub const ACCEPT: &'static str = "text/html,application/xhtml+xml,application/xml;q=0.9,image/avif,image/webp,image/apng,*/*;q=0.8,application/signed-exchange;v=b3;q=0.7";

/// How long a login stays valid, in the units the site stores login times in.
pub const LOGIN_LIFETIME: i64 = 604800;

// ---------------------------------------------------------------------------
// Addresses
// ---------------------------------------------------------------------------

/// The login page.
pub fn gen_login_url() -> (r: String)
    ensures
        r@ == WWW_URL@ + "/"@ + "login"@,
{
    let mut r = WWW_URL.to_owned();
    r.append("/");
    r.append("login");
    r
}

/// The current time as the site's login times are compared with it: the
/// seconds given, followed by three zeros.
pub fn gen_time(secs: i64) -> (r: String)
    ensures
        r@ == dec_int(secs as int) + "000"@,
{
    concatenate(i64_to_string(secs).as_str(), "000")
}

/// The text of [`gen_time`] read back as a number (0 when it does not
/// parse): the seconds times a thousand when that fits an `i64`, else 0.
pub fn now_millis(secs: i64) -> (r: i64)
    ensures
        r == (if i64::MIN <= secs * 1000 <= i64::MAX { secs * 1000 } else { 0 }),
{
    let t = gen_time(secs);
    proof {
        lemma_parse_dec_thousand(secs as int);
    }
    match parse_i64(t.as_str()) {
        Some(v) => v,
        None => 0,
    }
}

/// The listing page for the given category, origin, progress, pricing,
/// order and page number.
pub fn gen_explore_url(cate_id: &str, origin: &str, finished: &str, free: &str, sort: &str, page: i32) -> (r: String)
    ensures
        r@ == WWW_URL@ + "/"@ + cate_id@ + "?keyword=&origin="@ + origin@ + "&finished="@ + finished@
            + "&free="@ + free@ + "&tag=0&sort="@ + sort@ + "&page="@ + dec_int(page as int),
{
    let mut r = WWW_URL.to_owned();
    r.append("/");
    r.append(cate_id);
    r.append("?keyword=&origin=");
    r.append(origin);
    r.append("&finished=");
    r.append(finished);
    r.append("&free=");
    r.append(free);
    r.append("&tag=0&sort=");
    r.append(sort);
    r.append("&page=");
    r.append(i32_to_string(page).as_str());
    r
}

/// The search page for a keyword that is already percent-encoded.
pub fn gen_search_url(encoded_keyword: &str, page: i32) -> (r: String)
    ensures
        r@ == WWW_URL@ + "/search?keyword="@ + encoded_keyword@ + "&page="@ + dec_int(page as int),
{
    let mut r = WWW_URL.to_owned();
    r.append("/search?keyword=");
    r.append(encoded_keyword);
    r.append("&page=");
    r.append(i32_to_string(page).as_str());
    r
}

/// The detail page of a comic.
pub fn gen_detail_url(id: &str) -> (r: String)
    ensures
        r@ == WWW_URL@ + "/comic/detail/"@ + id@,
{
    let mut r = WWW_URL.to_owned();
    r.append("/comic/detail/");
    r.append(id);
    r
}

/// The reading page of a chapter.
pub fn gen_chapter_url(id: &str) -> (r: String)
    ensures
        r@ == WWW_URL@ + "/comic/chapter/"@ + id@,
{
    let mut r = WWW_URL.to_owned();
    r.append("/comic/chapter/");
    r.append(id);
    r
}

/// The daily check-in endpoint.
pub fn gen_checkin_url() -> (r: String)
    ensures
        r@ == API_URL@ + "/console/app/user/signin"@,
{
    let mut r = API_URL.to_owned();
    r.append("/console/app/user/signin");
    r
}

// ---------------------------------------------------------------------------
// Session
// ---------------------------------------------------------------------------

/// Whether a request must log in first: the address is not the login page,
/// an account is set, and the stored token is missing, the login time is
/// missing (-1), or the login has expired.
pub open spec fn needs_login_spec(
    url: Seq<char>,
    username: Seq<char>,
    password: Seq<char>,
    token: Seq<char>,
    login_time: int,
    now: int,
) -> bool {
    &&& !contains_seq(url, "login"@)
    &&& username.len() > 0
    &&& password.len() > 0
    &&& (token.len() == 0 || login_time == -1 || login_time + LOGIN_LIFETIME < now)
}

/// Whether a request must log in first (see [`needs_login_spec`]).
pub fn needs_login(url: &str, username: &str, password: &str, token: &str, login_time: i64, now: i64) -> (r: bool)
    ensures
        r == needs_login_spec(url@, username@, password@, token@, login_time as int, now as int),
{
    let expired = (login_time as i128) + (LOGIN_LIFETIME as i128) < (now as i128);
    !contains(url, "login") && !username.is_empty() && !password.is_empty()
        && (token.is_empty() || login_time == -1 || expired)
}

/// The headers every request carries, with the session cookie.
pub open spec fn request_headers(cookie: Seq<char>) -> Seq<HeaderView> {
    seq![
        HeaderView { name: "Accept"@, value: ACCEPT@ },
        HeaderView { name: "User-Agent"@, value: USER_AGENT@ },
        HeaderView { name: "Content-Type"@, value: "application/x-www-form-urlencoded"@ },
        HeaderView { name: "Cookie"@, value: "token="@ + cookie },
    ]
}

/// A request to the site carrying the session cookie `token=<cookie>`.
pub fn gen_request(url: String, method: Method, cookie: &str) -> (r: HttpRequest)
    ensures
        r@ == (HttpRequestView { url: url@, method, headers: request_headers(cookie@), body: None }),
{
    let mut headers: Vec<crate::http::Header> = Vec::new();
    headers.push(header("Accept", ACCEPT));
    headers.push(header("User-Agent", USER_AGENT));
    headers.push(header("Content-Type", "application/x-www-form-urlencoded"));
    let cookie_value = concatenate("token=", cookie);
    headers.push(header("Cookie", cookie_value.as_str()));
    let r = HttpRequest { url, method, headers, body: None };
    assert(seq_views(r.headers@) =~~= request_headers(cookie@));
    r
}

/// The login form for an account, or nothing when the user name or the
/// password is empty (no login is attempted then).
pub fn login_body(username: &str, password: &str) -> (r: Option<String>)
    ensures
        (username@.len() == 0 || password@.len() == 0) ==> r is None,
        (username@.len() > 0 && password@.len() > 0) ==> (r matches Some(b)
            && b@ == "loginName="@ + username@ + "&password="@ + password@),
{
    if username.is_empty() || password.is_empty() {
        return None;
    }
    let mut b = "loginName=".to_owned();
    b.append(username);
    b.append("&password=");
    b.append(password);
    Some(b)
}

/// Whether the site accepted a login: its `result` field is not `fail`.
pub fn login_accepted(result: &str) -> (r: bool)
    ensures
        r == (result@ != "fail"@),
{
    !text_eq(result, "fail")
}

/// Whether the daily check-in is switched on (off when the setting is absent).
pub fn auto_check_in_enabled(setting: Option<bool>) -> (r: bool)
    ensures
        r == (setting == Some(true)),
{
    match setting {
        Some(b) => b,
        None => false,
    }
}

/// The daily check-in request, made with the stored token.
pub fn checkin_request(token: &str) -> (r: HttpRequest)
    ensures
        r@ == (HttpRequestView {
            url: API_URL@ + "/console/app/user/signin"@,
            method: Method::Post,
            headers: seq![
                HeaderView { name: "User-Agent"@, value: USER_AGENT@ },
                HeaderView { name: "Token"@, value: token@ },
            ],
            body: Some("timeZone=Asia/Shanghai"@),
        }),
{
    let mut headers: Vec<crate::http::Header> = Vec::new();
    headers.push(header("User-Agent", USER_AGENT));
    headers.push(header("Token", token));
    let r = HttpRequest {
        url: gen_checkin_url(),
        method: Method::Post,
        headers,
        body: Some("timeZone=Asia/Shanghai".to_owned()),
    };
    assert(seq_views(r.headers@) =~~= seq![
        HeaderView { name: "User-Agent"@, value: USER_AGENT@ },
        HeaderView { name: "Token"@, value: token@ },
    ]);
    r
}

// ---------------------------------------------------------------------------
// Listing
// ---------------------------------------------------------------------------

/// The select boxes of the listing: type, origin, progress, pricing, order.
pub open spec fn filter_tables_spec() -> Seq<SelectTableView> {
    seq![
        SelectTableView { name: "类型"@, values: seq!["boy"@, "girl"@, "r18"@, "picture"@] },
        SelectTableView { name: "地区"@, values: seq!["0"@, "2"@, "3"@, "1"@, "4"@] },
        SelectTableView { name: "进度"@, values: seq!["0"@, "1"@, "2"@] },
        SelectTableView { name: "付费"@, values: seq!["0"@, "1"@, "2"@] },
        SelectTableView { name: "排序"@, values: seq!["1"@, "2"@] },
    ]
}

/// The select boxes of the listing.
pub fn filter_tables() -> (r: Vec<SelectTable>)
    ensures
        seq_views(r@) == filter_tables_spec(),
{
    let mut r: Vec<SelectTable> = Vec::new();
    r.push(select_table("类型", &["boy", "girl", "r18", "picture"]));
    r.push(select_table("地区", &["0", "2", "3", "1", "4"]));
    r.push(select_table("进度", &["0", "1", "2"]));
    r.push(select_table("付费", &["0", "1", "2"]));
    r.push(select_table("排序", &["1", "2"]));
    assert(seq_views(r@) =~~= filter_tables_spec());
    r
}

/// Whether every selection names an option of its box.
pub fn filters_valid(filters: &Vec<Filter>) -> (r: bool)
    ensures
        r == selects_ok(filter_tables_spec(), seq_views(filters@)),
{
    selects_valid(filters, &filter_tables())
}

/// The search text and the type, origin, progress, pricing and order chosen.
pub fn filter_choice(filters: &Vec<Filter>) -> (r: FilterChoice)
    requires
        selects_ok(filter_tables_spec(), seq_views(filters@)),
    ensures
        r@ == choice_spec(filter_tables_spec(), seq_views(filters@)),
        r@.picks.len() == 5,
{
    let r = apply_filters(filters, &filter_tables());
    proof {
        lemma_choice_picks(seq_views(filters@));
    }
    r
}

proof fn lemma_choice_picks(filters: Seq<crate::model::FilterView>)
    ensures
        choice_spec(filter_tables_spec(), filters).picks.len() == 5,
    decreases filters.len(),
{
    if filters.len() > 0 {
        lemma_choice_picks(filters.drop_last());
        match filters.last() {
            crate::model::FilterView::Select { name, index } => {
                crate::filters::lemma_table_for(filter_tables_spec(), name);
            },
            _ => {},
        }
    }
}

/// The listing page for the chosen filters. The search text takes no part
/// in it (the keyword in the address stays empty), so a search shows the
/// chosen category's listing, with no further pages (see [`manga_list`]);
/// [`gen_search_url`] is the site's search page.
pub fn manga_list_url(choice: &FilterChoice, page: i32) -> (r: String)
    requires
        choice@.picks.len() == 5,
    ensures
        r@ == WWW_URL@ + "/"@ + choice@.picks[0] + "?keyword=&origin="@ + choice@.picks[1] + "&finished="@
            + choice@.picks[2] + "&free="@ + choice@.picks[3] + "&tag=0&sort="@ + choice@.picks[4] + "&page="@
            + dec_int(page as int),
{
    gen_explore_url(
        choice.picks[0].as_str(),
        choice.picks[1].as_str(),
        choice.picks[2].as_str(),
        choice.picks[3].as_str(),
        choice.picks[4].as_str(),
        page,
    )
}

/// Whether to check in: the first page of the `boy` listing, without search.
pub fn check_in_due(choice: &FilterChoice, page: i32) -> (r: bool)
    requires
        choice@.picks.len() == 5,
    ensures
        r == (choice@.query.len() == 0 && choice@.picks[0] == "boy"@ && page == 1),
{
    choice.query.as_str().is_empty() && text_eq(choice.picks[0].as_str(), "boy") && page == 1
}

/// How an entry of the listing becomes a comic.
pub struct Entries;

impl EntryRule for Entries {
    open spec fn entry_spec(&self, n: ListNodeView) -> MangaView {
        listed(replace_seq(n.link, "/comic/detail/"@, ""@), n.image, trim_seq(n.label))
    }

    fn entry(&self, n: &ListNode) -> (m: Manga) {
        listed_manga(replace(n.link.as_str(), "/comic/detail/", ""), n.image.clone(), trim(n.label.as_str()))
    }
}

/// A page of the listing: one comic per entry that could be read; more
/// pages follow unless a search was made.
pub fn manga_list(choice: &FilterChoice, nodes: &Vec<Option<ListNode>>) -> (r: MangaPageResult)
    ensures
        seq_views(r.manga@) == entries_spec(&Entries, opt_views(nodes@)),
        r.has_more == (choice@.query.len() == 0),
{
    MangaPageResult { manga: collect_entries(&Entries, nodes), has_more: choice.query.as_str().is_empty() }
}

// ---------------------------------------------------------------------------
// Details
// ---------------------------------------------------------------------------

/// The comic described on its detail page, from the texts read there.
pub open spec fn details_spec(
    id: Seq<char>,
    cover: Seq<char>,
    title: Seq<char>,
    authors: Seq<Seq<char>>,
    description: Seq<char>,
    categories: Seq<Seq<char>>,
    status_text: Seq<char>,
    tag_url: Seq<char>,
    toon_icon: Seq<char>,
) -> MangaView {
    MangaView {
        id,
        cover,
        title,
        author: join_seq(authors, ", "@),
        artist: Seq::empty(),
        description: replace_seq(trim_seq(description), "作品介绍："@, ""@),
        url: WWW_URL@ + "/comic/detail/"@ + id,
        categories: trimmed_nonempty(categories),
        status: status_by(trim_seq(status_text), "完结"@, "连载中"@),
        nsfw: if contains_seq(tag_url, "/r18"@) {
            ContentRating::Nsfw
        } else if contains_seq(tag_url, "/picture"@) {
            ContentRating::Suggestive
        } else {
            ContentRating::Safe
        },
        viewer: if contains_seq(toon_icon, "vtoon_icon"@) {
            Viewer::Scroll
        } else {
            Viewer::Rtl
        },
    }
}

/// The comic described on its detail page.
pub fn manga_details(
    id: &str,
    cover: &str,
    title: &str,
    authors: &Vec<String>,
    description: &str,
    categories: &Vec<String>,
    status_text: &str,
    tag_url: &str,
    toon_icon: &str,
) -> (r: Manga)
    ensures
        r@ == details_spec(id@, cover@, title@, views(authors@), description@, views(categories@), status_text@, tag_url@, toon_icon@),
{
    let nsfw = if contains(tag_url, "/r18") {
        ContentRating::Nsfw
    } else if contains(tag_url, "/picture") {
        ContentRating::Suggestive
    } else {
        ContentRating::Safe
    };
    let viewer = if contains(toon_icon, "vtoon_icon") {
        Viewer::Scroll
    } else {
        Viewer::Rtl
    };
    let r = Manga {
        id: id.to_owned(),
        cover: cover.to_owned(),
        title: title.to_owned(),
        author: join(authors, ", "),
        artist: String::new(),
        description: replace(trim(description).as_str(), "作品介绍：", ""),
        url: gen_detail_url(id),
        categories: trim_nonempty(categories),
        status: status_by_markers(trim(status_text).as_str(), "完结", "连载中"),
        nsfw,
        viewer,
    };
    assert(r@ =~= details_spec(id@, cover@, title@, views(authors@), description@, views(categories@), status_text@, tag_url@, toon_icon@));
    r
}

// ---------------------------------------------------------------------------
// Chapters
// ---------------------------------------------------------------------------

/// The price label of a chapter, from the text of its price tag.
pub open spec fn price_label(tag: Seq<char>) -> Seq<char> {
    let s = replace_seq(replace_seq(trim_seq(tag), "￥"@, ""@), "&nbsp;"@, ""@);
    if s == "会员专享"@ {
        "登录免费"@
    } else {
        "￥ "@ + s
    }
}

/// How a chapter entry (link, title text, price tag text) becomes a chapter;
/// an entry whose link gives an empty id is skipped.
pub struct Chapters;

impl ChapterRule for Chapters {
    open spec fn draft_spec(&self, n: ChapterNodeView) -> Option<DraftView> {
        let id = replace_seq(n.link, "/comic/chapter/"@, ""@);
        if id.len() == 0 {
            None
        } else {
            Some(DraftView {
                id,
                title: trim_seq(n.label),
                scanlator: price_label(n.extra),
                url: WWW_URL@ + "/comic/chapter/"@ + id,
            })
        }
    }

    fn draft(&self, n: &ChapterNode) -> (d: Option<ChapterDraft>) {
        let id = replace(n.link.as_str(), "/comic/chapter/", "");
        if id.as_str().is_empty() {
            return None;
        }
        let s = replace(replace(trim(n.extra.as_str()).as_str(), "￥", "").as_str(), "&nbsp;", "");
        let scanlator = if text_eq(s.as_str(), "会员专享") {
            "登录免费".to_owned()
        } else {
            concatenate("￥ ", s.as_str())
        };
        let url = gen_chapter_url(id.as_str());
        let d = ChapterDraft { id, title: trim(n.label.as_str()), scanlator, url };
        assert(self.draft_spec(n@) == Some(d@));
        Some(d)
    }
}

/// The chapters of a comic, newest first, numbered by their position on the
/// detail page.
pub fn chapter_list(nodes: &Vec<Option<ChapterNode>>) -> (r: Vec<Chapter>)
    ensures
        seq_views(r@) == newest_first(drafts_spec(&Chapters, opt_views(nodes@))),
{
    number_newest_first(&collect_drafts(&Chapters, nodes))
}

// ---------------------------------------------------------------------------
// Pages
// ---------------------------------------------------------------------------

/// How an image (its `data-src`, then its `src`) gives the page address.
pub struct Pages;

impl PageRule for Pages {
    open spec fn url_spec(&self, n: ImageNodeView) -> Seq<char> {
        if trim_seq(n.primary).len() == 0 {
            trim_seq(n.fallback)
        } else {
            trim_seq(n.primary)
        }
    }

    fn url(&self, n: &ImageNode) -> (u: String) {
        let u = trim(n.primary.as_str());
        if u.as_str().is_empty() {
            trim(n.fallback.as_str())
        } else {
            u
        }
    }
}

/// The pages of a chapter, one per image that could be read.
pub fn page_list(nodes: &Vec<Option<ImageNode>>) -> (r: Vec<Page>)
    ensures
        seq_views(r@) == paged(urls_spec(&Pages, opt_views(nodes@))),
{
    collect_pages(&Pages, nodes)
}

// ---------------------------------------------------------------------------
// Laws
// ---------------------------------------------------------------------------

/// The request that logs in is never itself made to log in first: the login
/// page's address mentions `login`, whatever the session holds.
pub proof fn law_login_page_needs_no_login(
    username: Seq<char>,
    password: Seq<char>,
    token: Seq<char>,
    login_time: int,
    now: int,
)
    ensures
        !needs_login_spec(WWW_URL@ + "/"@ + "login"@, username, password, token, login_time, now),
{
    let u = WWW_URL@ + "/"@ + "login"@;
    reveal_strlit("/");
    reveal_strlit("login");
    let k: int = WWW_URL@.len() as int + 1;
    assert(u.subrange(k, k + "login"@.len() as int) =~= "login"@);
    crate::laws::lemma_occurs_found(u, "login"@, k);
}

/// Each select box maps its options to the site's values in order: type
/// to boy, girl, r18, picture; origin to 0, 2, 3, 1, 4; progress and pricing
/// to 0, 1, 2; order to 1, 2. A lone selection of option `i` in a box sets
/// that box's value to the `i`-th of these and leaves the others empty.
pub proof fn law_filter_options(i: i64)
    ensures
        0 <= i < 4 ==> choice_spec(filter_tables_spec(), seq![FilterView::Select { name: "类型"@, index: i }]).picks
            == seq![seq!["boy"@, "girl"@, "r18"@, "picture"@][i as int], ""@, ""@, ""@, ""@],
        0 <= i < 5 ==> choice_spec(filter_tables_spec(), seq![FilterView::Select { name: "地区"@, index: i }]).picks
            == seq![""@, seq!["0"@, "2"@, "3"@, "1"@, "4"@][i as int], ""@, ""@, ""@],
        0 <= i < 3 ==> choice_spec(filter_tables_spec(), seq![FilterView::Select { name: "进度"@, index: i }]).picks
            == seq![""@, ""@, seq!["0"@, "1"@, "2"@][i as int], ""@, ""@],
        0 <= i < 3 ==> choice_spec(filter_tables_spec(), seq![FilterView::Select { name: "付费"@, index: i }]).picks
            == seq![""@, ""@, ""@, seq!["0"@, "1"@, "2"@][i as int], ""@],
        0 <= i < 2 ==> choice_spec(filter_tables_spec(), seq![FilterView::Select { name: "排序"@, index: i }]).picks
            == seq![""@, ""@, ""@, ""@, seq!["1"@, "2"@][i as int]],
{
    reveal_strlit("类型");
    reveal_strlit("地区");
    reveal_strlit("进度");
    reveal_strlit("付费");
    reveal_strlit("排序");
    reveal_strlit("");
    reveal_with_fuel(crate::filters::table_from, 6);
    let t = filter_tables_spec();
    let names = seq!["类型"@, "地区"@, "进度"@, "付费"@, "排序"@];
    let none: Seq<Seq<char>> = Seq::new(5, |k: int| Seq::<char>::empty());
    assert(""@ =~= Seq::<char>::empty());
    let f0 = seq![FilterView::Select { name: "类型"@, index: i }];
    let f1 = seq![FilterView::Select { name: "地区"@, index: i }];
    let f2 = seq![FilterView::Select { name: "进度"@, index: i }];
    let f3 = seq![FilterView::Select { name: "付费"@, index: i }];
    let f4 = seq![FilterView::Select { name: "排序"@, index: i }];
    assert(f0.drop_last() =~= Seq::<FilterView>::empty());
    assert(f1.drop_last() =~= Seq::<FilterView>::empty());
    assert(f2.drop_last() =~= Seq::<FilterView>::empty());
    assert(f3.drop_last() =~= Seq::<FilterView>::empty());
    assert(f4.drop_last() =~= Seq::<FilterView>::empty());
    assert forall|a: int, b: int| 0 <= a < 5 && 0 <= b < 5 && a != b implies #[trigger] names[a] != #[trigger] names[b] by {
        assert(names[a][0] != names[b][0]);
    }
    assert forall|b: int| 0 <= b < 5 implies #[trigger] crate::filters::table_for(t, names[b]) == Some(b) by {
        assert(forall|a: int| 0 <= a < 5 ==> #[trigger] t[a].name == names[a]);
        crate::filters::lemma_table_hit(t, names, b, 0);
    }
    assert(crate::filters::table_for(t, names[0]) == Some(0int));
    assert(crate::filters::table_for(t, names[1]) == Some(1int));
    assert(crate::filters::table_for(t, names[2]) == Some(2int));
    assert(crate::filters::table_for(t, names[3]) == Some(3int));
    assert(crate::filters::table_for(t, names[4]) == Some(4int));
    assert(choice_spec(t, Seq::<FilterView>::empty()).picks =~= none);
    assert(choice_spec(t, f0).picks =~= seq![seq!["boy"@, "girl"@, "r18"@, "picture"@][i as int], ""@, ""@, ""@, ""@]);
    assert(choice_spec(t, f1).picks =~= seq![""@, seq!["0"@, "2"@, "3"@, "1"@, "4"@][i as int], ""@, ""@, ""@]);
    assert(choice_spec(t, f2).picks =~= seq![""@, ""@, seq!["0"@, "1"@, "2"@][i as int], ""@, ""@]);
    assert(choice_spec(t, f3).picks =~= seq![""@, ""@, ""@, seq!["0"@, "1"@, "2"@][i as int], ""@]);
    assert(choice_spec(t, f4).picks =~= seq![""@, ""@, ""@, ""@, seq!["1"@, "2"@][i as int]]);
}

/// A stored login is reused while it lasts: with a token and a login time,
/// no request logs in again until the lifetime has passed; once it has,
/// every request but the login page's does, when an account is set.
pub proof fn law_login_reused_until_expiry(
    url: Seq<char>,
    username: Seq<char>,
    password: Seq<char>,
    token: Seq<char>,
    login_time: int,
    now: int,
)
    requires
        token.len() > 0,
        login_time != -1,
    ensures
        now <= login_time + LOGIN_LIFETIME ==> !needs_login_spec(url, username, password, token, login_time, now),
        (now > login_time + LOGIN_LIFETIME && !contains_seq(url, "login"@) && username.len() > 0 && password.len() > 0)
            ==> needs_login_spec(url, username, password, token, login_time, now),
{
}

/// A comic read from its detail page keeps the id it was asked for, points
/// at the page it was read from, has no artist, and every category it lists
/// is non-empty and already trimmed.
pub proof fn law_details_clean(
    id: Seq<char>,
    cover: Seq<char>,
    title: Seq<char>,
    authors: Seq<Seq<char>>,
    description: Seq<char>,
    categories: Seq<Seq<char>>,
    status_text: Seq<char>,
    tag_url: Seq<char>,
    toon_icon: Seq<char>,
)
    ensures
        ({
            let r = details_spec(id, cover, title, authors, description, categories, status_text, tag_url, toon_icon);
            &&& r.id == id
            &&& r.url == WWW_URL@ + "/comic/detail/"@ + id
            &&& r.artist.len() == 0
            &&& forall|i: int| 0 <= i < r.categories.len() ==> (#[trigger] r.categories[i]).len() > 0
                && trim_seq(r.categories[i]) == r.categories[i]
        }),
{
    crate::text::law_trimmed_nonempty_clean(categories);
}

/// A listed comic's detail page is the site address followed by the link it
/// was listed with, when the link is `/comic/detail/<id>`.
pub proof fn law_listed_id_leads_to_detail_page(id: Seq<char>, image: Seq<char>, label: Seq<char>)
    requires
        !contains_seq(id, "/comic/detail/"@),
    ensures
        Entries.entry_spec(ListNodeView { link: "/comic/detail/"@ + id, image, label }).id == id,
        details_spec(id, Seq::empty(), Seq::empty(), Seq::empty(), Seq::empty(), Seq::empty(), Seq::empty(), Seq::empty(), Seq::empty()).url
            == WWW_URL@ + ("/comic/detail/"@ + id),
{
    reveal_strlit("/comic/detail/");
    reveal_strlit("");
    assert(""@ =~= Seq::<char>::empty());
    crate::laws::law_strip_prefix("/comic/detail/"@, id);
    assert(WWW_URL@ + "/comic/detail/"@ + id =~= WWW_URL@ + ("/comic/detail/"@ + id));
}

/// A chapter linked as `/comic/chapter/<id>` with a non-empty id is kept,
/// gets that id, and its address is the site address followed by the link.
pub proof fn law_chapter_link_roundtrip(id: Seq<char>, label: Seq<char>, tag: Seq<char>)
    requires
        id.len() > 0,
        !contains_seq(id, "/comic/chapter/"@),
    ensures
        Chapters.draft_spec(ChapterNodeView { link: "/comic/chapter/"@ + id, label, extra: tag }) matches Some(d)
            && d.id == id && d.url == WWW_URL@ + ("/comic/chapter/"@ + id),
{
    reveal_strlit("/comic/chapter/");
    reveal_strlit("");
    assert(""@ =~= Seq::<char>::empty());
    crate::laws::law_strip_prefix("/comic/chapter/"@, id);
    assert(WWW_URL@ + "/comic/chapter/"@ + id =~= WWW_URL@ + ("/comic/chapter/"@ + id));
}

/// Each page's address is the trimmed `data-src` of the image at the page's index, or its trimmed
/// `src` when that is empty.
pub proof fn law_page_address(nodes: Seq<Option<crate::model::ImageNodeView>>)
    ensures
        forall|i: int| 0 <= i < crate::assemble::paged(crate::assemble::urls_spec(&Pages, nodes)).len() ==> {
            let p = #[trigger] crate::assemble::paged(crate::assemble::urls_spec(&Pages, nodes))[i];
            let n = nodes[p.index as int]->0;
            &&& p.index < nodes.len()
            &&& nodes[p.index as int] is Some
            &&& p.url == (if crate::text::trim_seq(n.primary).len() == 0 { crate::text::trim_seq(n.fallback) } else { crate::text::trim_seq(n.primary) })
        },
{
    crate::laws::law_page_from_image(&Pages, nodes);
}

/// Each chapter comes from the entry at position `number - 1`, whose link without `/comic/chapter/`
/// is its non-empty id; its title is the entry's trimmed title text, its price label comes from the
/// entry's price tag, and its address is the chapter page of its id.
pub proof fn law_chapter_fields(nodes: Seq<Option<crate::model::ChapterNodeView>>)
    ensures
        forall|i: int| 0 <= i < crate::assemble::newest_first(crate::assemble::drafts_spec(&Chapters, nodes)).len() ==> {
            let c = #[trigger] crate::assemble::newest_first(crate::assemble::drafts_spec(&Chapters, nodes))[i];
            let k = c.number - 1;
            let n = nodes[k]->0;
            &&& 0 <= k < nodes.len()
            &&& nodes[k] is Some
            &&& c.id == crate::text::replace_seq(n.link, "/comic/chapter/"@, ""@)
            &&& c.id.len() > 0
            &&& c.title == crate::text::trim_seq(n.label)
            &&& c.scanlator == price_label(n.extra)
            &&& c.url == WWW_URL@ + "/comic/chapter/"@ + c.id
        },
{
    crate::laws::law_chapter_from_entry(crate::assemble::drafts_spec(&Chapters, nodes));
    assert forall|i: int| 0 <= i < crate::assemble::newest_first(crate::assemble::drafts_spec(&Chapters, nodes)).len() implies {
            let c = #[trigger] crate::assemble::newest_first(crate::assemble::drafts_spec(&Chapters, nodes))[i];
            let k = c.number - 1;
            let n = nodes[k]->0;
            &&& 0 <= k < nodes.len()
            &&& nodes[k] is Some
            &&& c.id == crate::text::replace_seq(n.link, "/comic/chapter/"@, ""@)
            &&& c.id.len() > 0
            &&& c.title == crate::text::trim_seq(n.label)
            &&& c.scanlator == price_label(n.extra)
            &&& c.url == WWW_URL@ + "/comic/chapter/"@ + c.id
        } by {
        let c = crate::assemble::newest_first(crate::assemble::drafts_spec(&Chapters, nodes))[i];
        let k = c.number - 1;
        crate::laws::lemma_draft_from_node(&Chapters, nodes, k);
    }
}

/// The comics of a listing are, in order, one per entry that could be read: its id is the entry's
/// link without `/comic/detail/`, its cover the entry's image, its title the entry's trimmed title.
pub proof fn law_listing_entry_fields(nodes: Seq<Option<crate::model::ListNodeView>>)
    ensures
        crate::assemble::entries_spec(&Entries, nodes).len() == crate::model::somes(nodes).len(),
        forall|i: int| 0 <= i < crate::model::somes(nodes).len() ==> {
            let m = #[trigger] crate::assemble::entries_spec(&Entries, nodes)[i];
            let n = crate::model::somes(nodes)[i];
            &&& m.id == crate::text::replace_seq(n.link, "/comic/detail/"@, ""@)
            &&& m.cover == n.image
            &&& m.title == crate::text::trim_seq(n.label)
        },
{
    crate::laws::law_entries_in_order(&Entries, nodes);
}

/// A comic is completed when its trimmed status text mentions 完结, otherwise ongoing when it
/// mentions 连载中, otherwise of unknown status.
pub proof fn law_status_words(id: Seq<char>, cover: Seq<char>, title: Seq<char>, authors: Seq<Seq<char>>, description: Seq<char>, categories: Seq<Seq<char>>, status_text: Seq<char>, tag_url: Seq<char>, toon_icon: Seq<char>)
    ensures
        ({
            let st = details_spec(id, cover, title, authors, description, categories, status_text, tag_url, toon_icon).status;
            let t = crate::text::trim_seq(status_text);
            &&& crate::text::contains_seq(t, "完结"@) ==> st == crate::model::MangaStatus::Completed
            &&& (!crate::text::contains_seq(t, "完结"@) && crate::text::contains_seq(t, "连载中"@)) ==> st == crate::model::MangaStatus::Ongoing
            &&& (!crate::text::contains_seq(t, "完结"@) && !crate::text::contains_seq(t, "连载中"@)) ==> st == crate::model::MangaStatus::Unknown
        }),
{
}

/// A comic read from its detail page: the given cover and title; the
/// authors joined with `, `; the description trimmed and without `作品介绍：`;
/// rated adult when its first tag links to `/r18`, suggestive when to
/// `/picture`, else safe; read by scrolling when its cover carries the
/// `vtoon_icon` badge, else right to left.
pub proof fn law_details_fields(
    id: Seq<char>,
    cover: Seq<char>,
    title: Seq<char>,
    authors: Seq<Seq<char>>,
    description: Seq<char>,
    categories: Seq<Seq<char>>,
    status_text: Seq<char>,
    tag_url: Seq<char>,
    toon_icon: Seq<char>,
)
    ensures
        ({
            let r = details_spec(id, cover, title, authors, description, categories, status_text, tag_url, toon_icon);
            &&& r.cover == cover
            &&& r.title == title
            &&& r.author == crate::text::join_seq(authors, ", "@)
            &&& r.description == crate::text::replace_seq(crate::text::trim_seq(description), "作品介绍："@, ""@)
            &&& crate::text::contains_seq(tag_url, "/r18"@) ==> r.nsfw == crate::model::ContentRating::Nsfw
            &&& (!crate::text::contains_seq(tag_url, "/r18"@) && crate::text::contains_seq(tag_url, "/picture"@)) ==> r.nsfw == crate::model::ContentRating::Suggestive
            &&& (!crate::text::contains_seq(tag_url, "/r18"@) && !crate::text::contains_seq(tag_url, "/picture"@)) ==> r.nsfw == crate::model::ContentRating::Safe
            &&& crate::text::contains_seq(toon_icon, "vtoon_icon"@) ==> r.viewer == crate::model::Viewer::Scroll
            &&& !crate::text::contains_seq(toon_icon, "vtoon_icon"@) ==> r.viewer == crate::model::Viewer::Rtl
        }),
{
}

} // verus!
