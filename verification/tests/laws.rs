use base64::Engine;
use zh_sources::model::{ChapterNode, Filter, ListNode};
use zh_sources::text::{join, split, trim, trim_nonempty};
use zh_sources::{favcomic, kukanmanhua, pipimanhua, veryim, wnacg};

fn s(v: &str) -> String {
    v.to_string()
}

fn select(name: &str, index: i64) -> Filter {
    Filter::Select { name: s(name), index }
}

#[test]
fn only_the_last_title_and_selections_count() {
    let f1 = vec![
        select("地区", 0),
        Filter::Title(s("old")),
        select("题材", 1),
        select("地区", 2),
        Filter::Other,
        select("无此项", 7),
        Filter::Title(s("new")),
    ];
    let f2 = vec![Filter::Title(s("new")), select("地区", 2), select("题材", 1)];
    assert!(kukanmanhua::filters_valid(&f1) && kukanmanhua::filters_valid(&f2));
    let c1 = kukanmanhua::filter_choice(&f1);
    let c2 = kukanmanhua::filter_choice(&f2);
    assert_eq!(c1.query, "new");
    assert_eq!(c1.query, c2.query);
    assert_eq!(c1.picks, c2.picks);
}

#[test]
fn favcomic_categories_are_trimmed_and_non_empty() {
    let m = favcomic::manga_details(
        "9",
        "c",
        "T",
        &vec![],
        "",
        &vec![s("  热血 "), s(" \u{3000} "), s("\t搞笑\n"), s("")],
        "",
        "",
        "",
    );
    assert_eq!(m.id, "9");
    assert_eq!(m.url, favcomic::gen_detail_url("9"));
    assert_eq!(m.artist, "");
    assert_eq!(m.categories, vec![s("热血"), s("搞笑")]);
    for c in &m.categories {
        assert!(!c.is_empty());
        assert_eq!(&trim(c), c);
    }
    assert_eq!(trim_nonempty(&m.categories), m.categories);
}

#[test]
fn pipimanhua_chapter_link_round_trips() {
    let rule = pipimanhua::Chapters { manga_id: s("77") };
    let links = ["/read/77/1001.html", "/read/77/a-b_c.html", "/read/77/x.htm.html"];
    let nodes: Vec<Option<ChapterNode>> =
        links.iter().map(|l| Some(ChapterNode { link: s(l), label: s(" t "), extra: s("") })).collect();
    let ch = pipimanhua::chapter_list(&rule, &nodes);
    assert_eq!(ch.len(), 3);
    let ids: Vec<&str> = ch.iter().map(|c| c.id.as_str()).collect();
    assert_eq!(ids, vec!["x.htm", "a-b_c", "1001"]);
    for (c, l) in ch.iter().zip(links.iter().rev()) {
        assert_eq!(c.url, format!("http://www.pipimanhua.com{}", l));
    }
    assert_eq!((ch[0].number, ch[2].number), (3, 1));
}

#[test]
fn veryim_pages_count_separators_and_join_back() {
    let sep = "$qingtiandy$";
    for text in ["a", "", "a$qingtiandy$b$qingtiandy$", "$qingtiandy$$qingtiandy$x"] {
        let list = base64::engine::general_purpose::STANDARD.encode(text);
        let pages = veryim::page_list(&list).unwrap();
        assert_eq!(pages.len(), text.matches(sep).count() + 1);
        for (i, p) in pages.iter().enumerate() {
            assert_eq!(p.index, i);
        }
        let urls: Vec<String> = pages.iter().map(|p| p.url.clone()).collect();
        assert_eq!(join(&urls, sep), text);
    }
}

#[test]
fn split_then_join_with_same_separator_is_identity() {
    for (text, sep) in [("a,b,,c", ","), ("", ","), ("abab", "ab"), ("aaa", "aa")] {
        let parts = split(text, sep);
        assert_eq!(parts.len(), text.matches(sep).count() + 1);
        assert_eq!(join(&parts, sep), text);
    }
}

#[test]
fn trimming_twice_is_trimming_once() {
    for t in [" a b ", "\u{3000}x\t", "", "   ", "y"] {
        assert_eq!(trim(&trim(t)), trim(t));
    }
}

#[test]
fn wnacg_unknown_listing_is_the_plain_index() {
    let base = "https://wnacg.example";
    let empty = wnacg::filter_choice(&vec![]);
    assert_eq!(wnacg::listing_address(base, "最新", 4), wnacg::manga_list_url(base, &empty, "", 4));
    assert_eq!(wnacg::listing_address(base, "", 1), "https://wnacg.example/albums-index-page-1.html");
    assert_eq!(wnacg::listing_address(base, "韓漫-漢化", 2), "https://wnacg.example/albums-index-page-2-cate-20.html");
    let nodes = vec![Some(ListNode { link: s("/photos-index-aid-5.html"), image: s("//i/c.jpg"), label: s(" <em>A</em>b ") })];
    let plain = wnacg::listing_page("最新", &nodes);
    let index = wnacg::manga_list(&nodes);
    assert!(plain.has_more);
    assert_eq!(plain.manga[0].title, index.manga[0].title);
    assert_eq!(plain.manga[0].title, "Ab");
    assert_eq!(plain.manga[0].id, "5");
    let cat = wnacg::listing_page("韓漫-漢化", &nodes);
    assert_eq!(cat.manga[0].title, "<em>A</em>b");
}
