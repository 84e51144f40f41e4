use zh_sources::favcomic::{
    auto_check_in_enabled, chapter_list, check_in_due, checkin_request, filter_choice, filters_valid, gen_chapter_url,
    gen_checkin_url, gen_detail_url, gen_explore_url, gen_login_url, gen_request, gen_search_url, gen_time,
    login_accepted, login_body, manga_details, manga_list, manga_list_url, needs_login, now_millis, page_list,
};
use zh_sources::http::Method;
use zh_sources::model::{ChapterNode, ContentRating, Filter, ImageNode, ListNode, MangaStatus, Viewer};

fn s(v: &str) -> String {
    v.to_string()
}

#[test]
fn addresses() {
    assert_eq!(gen_login_url(), "https://www.favcomic.com/login");
    assert_eq!(gen_detail_url("42"), "https://www.favcomic.com/comic/detail/42");
    assert_eq!(gen_chapter_url("7"), "https://www.favcomic.com/comic/chapter/7");
    assert_eq!(gen_checkin_url(), "https://api.favcomic.com/console/app/user/signin");
    assert_eq!(gen_search_url("%E4%B8%80", 2), "https://www.favcomic.com/search?keyword=%E4%B8%80&page=2");
    assert_eq!(
        gen_explore_url("boy", "0", "1", "2", "1", 3),
        "https://www.favcomic.com/boy?keyword=&origin=0&finished=1&free=2&tag=0&sort=1&page=3"
    );
}

#[test]
fn time_is_seconds_with_three_zeros() {
    assert_eq!(gen_time(1700000000), "1700000000000");
    assert_eq!(gen_time(0), "0000");
    assert_eq!(now_millis(1700000000), 1700000000000);
    assert_eq!(now_millis(-5), -5000);
    assert_eq!(now_millis(0), 0);
    // too large for milliseconds in an i64: reads back as 0
    assert_eq!(now_millis(i64::MAX / 100), 0);
}

#[test]
fn login_decision() {
    let now = 1_000_000_000_000i64;
    // missing token
    assert!(needs_login("https://www.favcomic.com/boy", "u", "p", "", 5, now));
    // missing login time
    assert!(needs_login("https://www.favcomic.com/boy", "u", "p", "t", -1, now));
    // expired
    assert!(needs_login("https://www.favcomic.com/boy", "u", "p", "t", now - 604801, now));
    // still valid
    assert!(!needs_login("https://www.favcomic.com/boy", "u", "p", "t", now - 604800, now));
    // no account
    assert!(!needs_login("https://www.favcomic.com/boy", "", "p", "", -1, now));
    assert!(!needs_login("https://www.favcomic.com/boy", "u", "", "", -1, now));
    // the login page itself never logs in first
    assert!(!needs_login(&gen_login_url(), "u", "p", "", -1, now));
    // no overflow at the extremes
    assert!(!needs_login("x", "u", "p", "t", i64::MAX, i64::MIN));
}

#[test]
fn request_headers() {
    let r = gen_request(s("https://www.favcomic.com/boy"), Method::Get, "abc");
    assert_eq!(r.url, "https://www.favcomic.com/boy");
    assert_eq!(r.method, Method::Get);
    assert_eq!(r.headers.len(), 4);
    assert_eq!(r.headers[0].name, "Accept");
    assert_eq!(r.headers[1].name, "User-Agent");
    assert_eq!(r.headers[2].value, "application/x-www-form-urlencoded");
    assert_eq!((r.headers[3].name.as_str(), r.headers[3].value.as_str()), ("Cookie", "token=abc"));
    assert!(r.body.is_none());
}

#[test]
fn login_form_and_answer() {
    assert_eq!(login_body("me", "pw"), Some(s("loginName=me&password=pw")));
    assert_eq!(login_body("", "pw"), None);
    assert_eq!(login_body("me", ""), None);
    assert!(!login_accepted("fail"));
    assert!(login_accepted("success"));
}

#[test]
fn check_in() {
    assert!(!auto_check_in_enabled(None));
    assert!(!auto_check_in_enabled(Some(false)));
    assert!(auto_check_in_enabled(Some(true)));
    let r = checkin_request("tok");
    assert_eq!(r.url, "https://api.favcomic.com/console/app/user/signin");
    assert_eq!(r.method, Method::Post);
    assert_eq!((r.headers[1].name.as_str(), r.headers[1].value.as_str()), ("Token", "tok"));
    assert_eq!(r.body, Some(s("timeZone=Asia/Shanghai")));
}

#[test]
fn listing() {
    let filters = vec![
        Filter::Select { name: s("类型"), index: 0 },
        Filter::Select { name: s("地区"), index: 1 },
        Filter::Select { name: s("排序"), index: 1 },
    ];
    assert!(filters_valid(&filters));
    let c = filter_choice(&filters);
    assert_eq!(
        manga_list_url(&c, 1),
        "https://www.favcomic.com/boy?keyword=&origin=2&finished=&free=&tag=0&sort=2&page=1"
    );
    assert!(check_in_due(&c, 1));
    assert!(!check_in_due(&c, 2));
    let nodes = vec![
        Some(ListNode { link: s("/comic/detail/12"), image: s("c.jpg"), label: s("  名字 ") }),
        None,
    ];
    let r = manga_list(&c, &nodes);
    assert!(r.has_more);
    assert_eq!(r.manga.len(), 1);
    assert_eq!((r.manga[0].id.as_str(), r.manga[0].cover.as_str(), r.manga[0].title.as_str()), ("12", "c.jpg", "名字"));
    assert_eq!(r.manga[0].status, MangaStatus::Unknown);
    assert!(!filters_valid(&vec![Filter::Select { name: s("排序"), index: 2 }]));
}

#[test]
fn details() {
    let m = manga_details(
        "12",
        "c.jpg",
        "名字",
        &vec![s("甲"), s("乙")],
        "  作品介绍：好看 ",
        &vec![s(" 热血 "), s(" ")],
        " 已完结 ",
        "/tags/r18",
        "x/vtoon_icon.png",
    );
    assert_eq!(m.author, "甲, 乙");
    assert_eq!(m.description, "好看");
    assert_eq!(m.url, "https://www.favcomic.com/comic/detail/12");
    assert_eq!(m.categories, vec![s("热血")]);
    assert_eq!(m.status, MangaStatus::Completed);
    assert_eq!(m.nsfw, ContentRating::Nsfw);
    assert_eq!(m.viewer, Viewer::Scroll);
    let m2 = manga_details("1", "", "", &vec![], "", &vec![], "连载中", "/picture", "");
    assert_eq!(m2.status, MangaStatus::Ongoing);
    assert_eq!(m2.nsfw, ContentRating::Suggestive);
    assert_eq!(m2.viewer, Viewer::Rtl);
    let m3 = manga_details("1", "", "", &vec![], "", &vec![], "?", "/boy", "");
    assert_eq!(m3.status, MangaStatus::Unknown);
    assert_eq!(m3.nsfw, ContentRating::Safe);
}

#[test]
fn chapters() {
    let nodes = vec![
        Some(ChapterNode { link: s("/comic/chapter/1"), label: s(" 第一话 "), extra: s("会员专享") }),
        Some(ChapterNode { link: s("/comic/chapter/"), label: s("skipped"), extra: s("") }),
        Some(ChapterNode { link: s("/comic/chapter/3"), label: s("第三话"), extra: s(" ￥&nbsp;30 ") }),
    ];
    let r = chapter_list(&nodes);
    assert_eq!(r.len(), 2);
    assert_eq!((r[0].id.as_str(), r[0].number, r[0].scanlator.as_str()), ("3", 3, "￥ 30"));
    assert_eq!(r[0].url, "https://www.favcomic.com/comic/chapter/3");
    assert_eq!((r[1].id.as_str(), r[1].number, r[1].title.as_str(), r[1].scanlator.as_str()), ("1", 1, "第一话", "登录免费"));
}

#[test]
fn pages() {
    let nodes = vec![
        Some(ImageNode { primary: s(" a.jpg "), fallback: s("x") }),
        None,
        Some(ImageNode { primary: s("  "), fallback: s(" b.jpg") }),
    ];
    let r = page_list(&nodes);
    assert_eq!(r.len(), 2);
    assert_eq!((r[0].index, r[0].url.as_str()), (0, "a.jpg"));
    assert_eq!((r[1].index, r[1].url.as_str()), (2, "b.jpg"));
}
