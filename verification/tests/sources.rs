use base64::Engine;
use zh_sources::model::{ChapterNode, ContentRating, Filter, ImageNode, ListNode, MangaStatus, Viewer};
use zh_sources::{gmh8, jmd52, kanman, kukanmanhua, manwa, mh18, pipimanhua, qiruiyaoye, veryim, wnacg};

fn s(v: &str) -> String {
    v.to_string()
}

fn node(link: &str, image: &str, label: &str) -> Option<ListNode> {
    Some(ListNode { link: s(link), image: s(image), label: s(label) })
}

fn chapter(link: &str, label: &str, extra: &str) -> Option<ChapterNode> {
    Some(ChapterNode { link: s(link), label: s(label), extra: s(extra) })
}

fn image(primary: &str, fallback: &str) -> Option<ImageNode> {
    Some(ImageNode { primary: s(primary), fallback: s(fallback) })
}

fn title(q: &str) -> Filter {
    Filter::Title(s(q))
}

fn select(name: &str, index: i64) -> Filter {
    Filter::Select { name: s(name), index }
}

#[test]
fn mh18_source() {
    let c = mh18::filter_choice(&vec![select("類型", 3)]);
    assert_eq!(mh18::manga_list_url(&c, "", 2), "https://18mh.org/manga-genre/riman/page/2");
    let c = mh18::filter_choice(&vec![title("甲")]);
    assert_eq!(mh18::manga_list_url(&c, "%E7%94%B2", 1), "https://18mh.org/s/%E7%94%B2?page=1");
    let r = mh18::manga_list(&c, &vec![node("id1", "c.jpg", "T")]);
    assert!(!r.has_more);
    assert_eq!((r.manga[0].id.as_str(), r.manga[0].cover.as_str()), ("id1", "c.jpg"));
    let html = "<script type=\"application/ld+json\">{\"a\":1}</script><script async src=x>";
    assert_eq!(mh18::info_json(html), Some(s("{\"a\":1}")));
    assert_eq!(mh18::info_json("nothing"), None);
    let m = mh18::manga_details("x", "i", "n", " 作者：某 ", "d", &vec![s("a")], "已完結");
    assert_eq!(m.author, "某");
    assert_eq!(m.status, MangaStatus::Completed);
    assert_eq!(m.url, "https://18mh.org/manga/x");
    assert_eq!(m.nsfw, ContentRating::Nsfw);
    assert_eq!(mh18::chapter_list_url("9"), "https://18mh.org/manga/get?mid=9&mode=all");
    let ch = mh18::chapter_list(&vec![chapter("c1", " t1 ", "/read/1"), chapter("c2", "t2", "/read/2")]);
    assert_eq!((ch[0].id.as_str(), ch[0].number, ch[0].url.as_str()), ("c2", 2, "https://18mh.org/read/2"));
    assert_eq!(ch[1].title, "t1");
    assert_eq!(mh18::page_list_url("9", "c1"), "https://18mh.org/chapter/getcontent?m=9&c=c1");
    let p = mh18::page_list(&vec![image(" https://a ", "b"), image("/rel", " https://c ")]);
    assert_eq!((p[0].url.as_str(), p[1].url.as_str()), ("https://a", "https://c"));
}

#[test]
fn gmh8_source() {
    let c = gmh8::filter_choice(&vec![select("排序", 1), select("进度", 2)]);
    assert_eq!(gmh8::manga_list_url(&c, "", 4), "https://www.gmh8.com/index.php/category/order/addtime/finish/2/page/4");
    let c = gmh8::filter_choice(&vec![select("标签", 42)]);
    assert_eq!(gmh8::manga_list_url(&c, "", 1), "https://www.gmh8.com/index.php/category/order//tags/303/finish//page/1");
    assert!(!gmh8::filters_valid(&vec![select("标签", 43)]));
    let c = gmh8::filter_choice(&vec![title("x")]);
    assert_eq!(gmh8::manga_list_url(&c, "x", 1), "https://www.gmh8.com/index.php/search?key=x");
    let r = gmh8::manga_list(&c, &vec![node("/index.php/comic/55", " a b.jpg ", "T")]);
    assert_eq!((r.manga[0].id.as_str(), r.manga[0].cover.as_str()), ("55", "ab.jpg"));
    let m = gmh8::manga_details("55", " c .jpg", " T ", " 甲 乙 ", " d ", &vec![]);
    assert_eq!((m.cover.as_str(), m.title.as_str(), m.author.as_str()), ("c.jpg", "T", "甲, 乙"));
    assert_eq!(m.url, "https://www.gmh8.com/index.php/comic/55");
    let ch = gmh8::chapter_list(&vec![chapter("/index.php/chapter/8", " c ", "")]);
    assert_eq!((ch[0].id.as_str(), ch[0].url.as_str()), ("8", "https://www.gmh8.com/index.php/chapter/8"));
    let p = gmh8::page_list(&vec![image(" a b ", "")]);
    assert_eq!(p[0].url, "ab");
}

#[test]
fn jmd52_source() {
    let base = "https://52jmd.example";
    let c = jmd52::filter_choice(&vec![select("分类", 1), select("进度", 2), select("排序", 1)]);
    assert_eq!(c.picks[0], "韩漫");
    assert_eq!(
        jmd52::manga_list_url(base, &c, "%E9%9F%A9%E6%BC%AB", "", 3),
        "https://52jmd.example/catalog/%E9%9F%A9%E6%BC%AB/ob/time/st/completed/page/3"
    );
    let c = jmd52::filter_choice(&vec![title("q")]);
    assert_eq!(jmd52::manga_list_url(base, &c, "", "q", 1), "https://52jmd.example/cata.php?key=q");
    let r = jmd52::manga_list(&c, &vec![node("/manga/77", "c", "T")]);
    assert_eq!(r.manga[0].id, "77");
    let m = jmd52::manga_details(base, "77", "c", " T ", "甲&乙", &vec![s(" x "), s("")], " d ", &vec![s("k")], "已完结");
    assert_eq!((m.author.as_str(), m.artist.as_str()), ("甲, 乙", "x"));
    assert_eq!(m.status, MangaStatus::Completed);
    let rule = jmd52::Chapters { base: s(base), manga_id: s("77") };
    let ch = jmd52::chapter_list(&rule, &vec![chapter("/manga/77/1001", " 一 ", "")]);
    assert_eq!((ch[0].id.as_str(), ch[0].url.as_str()), ("1001", "https://52jmd.example/manga/77/1001"));
    assert_eq!(jmd52::page_list(&vec![image(" p ", "")])[0].url, "p");
}

#[test]
fn kanman_source() {
    let c = kanman::filter_choice(&vec![select("x", 9), title("q")]);
    assert_eq!(c.query, "q");
    assert_eq!(
        kanman::manga_list_url(&c, "q", 1),
        "https://www.kanman.com/api/getsortlist/?product_id=1&productname=kmh&platformname=pc&search_key=q"
    );
    assert!(kanman::manga_list_user_agent(&c).contains("Macintosh"));
    let c = kanman::filter_choice(&vec![]);
    assert!(kanman::manga_list_url(&c, "", 5).ends_with("&size=30&page=5"));
    assert!(kanman::manga_list_user_agent(&c).contains("iPhone"));
    let items = vec![
        kanman::JsonItem { comic_id: Some(106), comic_name: Some(s("名")), cover_img: Some(s("c")) },
        kanman::JsonItem { comic_id: None, comic_name: None, cover_img: None },
    ];
    let r = kanman::manga_list(&c, &items);
    assert!(r.has_more);
    assert_eq!((r.manga[0].id.as_str(), r.manga[0].title.as_str()), ("106", "名"));
    assert_eq!((r.manga[1].id.as_str(), r.manga[1].title.as_str(), r.manga[1].cover.as_str()), ("0", "", ""));
    let m = kanman::manga_details("106", " T ", "甲 乙", " d ", &vec![]);
    assert_eq!(m.cover, "https://image.yqmh.com/mh/106.jpg");
    assert_eq!(m.url, "https://m.kanman.com/106/");
    let rule = kanman::Chapters { manga_id: s("106") };
    let ch = kanman::chapter_list(&rule, &vec![chapter("/106/900.html", "x", ""), chapter("/106/901.html", "y", "")]);
    assert_eq!((ch[0].id.as_str(), ch[0].title.as_str(), ch[0].url.as_str()), ("901", "y", "https://m.kanman.com/106/901.html"));
    assert!(kanman::page_list_url("1", "2").contains("comic_id=1&chapter_newid=2"));
    let p = kanman::page_list(vec![s("a"), s("b")]);
    assert_eq!((p[1].index, p[1].url.as_str()), (1, "b"));
    let h = kanman::image_request_headers();
    assert_eq!((h[0].name.as_str(), h[0].value.as_str()), ("Referer", "https://m.kanman.com"));
}

#[test]
fn kukanmanhua_source() {
    let c = kukanmanhua::filter_choice(&vec![select("地区", 1), select("进度", 2)]);
    assert_eq!(c.picks[0], "");
    assert_eq!(
        kukanmanhua::manga_list_url(&c, "", "", 2),
        "https://www.kukanmanhua.com/booklist?page=2&cate=&area=5&end=1"
    );
    let r = kukanmanhua::manga_list(&c, &vec![node("/book/3", " background-image: url(/c.jpg) ", "T")]);
    assert_eq!((r.manga[0].id.as_str(), r.manga[0].cover.as_str()), ("3", "/c.jpg"));
    let m = kukanmanhua::manga_details("3", "c", "T", " 作者：甲 乙 ", "d", &vec![], "连载中");
    assert_eq!(m.author, "甲, 乙");
    assert_eq!(m.status, MangaStatus::Ongoing);
    let ch = kukanmanhua::chapter_list(&vec![chapter("/chapter/44", "t", "")]);
    assert_eq!(ch[0].url, "https://www.kukanmanhua.com/chapter/44");
}

#[test]
fn manwa_source() {
    let base = "https://manwa.example";
    let c = manwa::filter_choice(&vec![select("地区", 6), select("排序", 0)]);
    assert_eq!(
        manwa::manga_list_url(base, &c, "", 1),
        "https://manwa.example/booklist?tag=&end=&gender=-1&has_full=-1&area=1&sort=-1&level=-1&page=1"
    );
    let (a, st) = manwa::detail_selectors(6);
    assert!(a.contains("nth-child(1)") && st.contains("nth-child(2)"));
    let (a, st) = manwa::detail_selectors(7);
    assert!(a.contains("nth-child(2)") && st.contains("nth-child(3)"));
    let m = manwa::manga_details(base, "9", "c", " T ", "甲", " 好免费成人H漫线上看 ", &vec![], "连载中");
    assert_eq!(m.description, "好");
    assert_eq!(m.status, MangaStatus::Ongoing);
    let m = manwa::manga_details(base, "9", "c", "T", "甲", "", &vec![], " 已完结 ");
    assert_eq!(m.status, MangaStatus::Unknown);
    let rule = manwa::Chapters { base: s(base) };
    let ch = manwa::chapter_list(&rule, &vec![chapter("/chapter/5", "t", "")]);
    assert_eq!((ch[0].id.as_str(), ch[0].url.as_str()), ("5", "https://manwa.example/chapter/5"));
}

#[test]
fn pipimanhua_source() {
    let c = pipimanhua::filter_choice(&vec![select("分类", 18)]);
    assert_eq!(pipimanhua::catalog_url(&c, 2), "http://www.pipimanhua.com/sort/18/2");
    let home = "<form action=\"/search.php\"  target=\"_blank\" onsubmit=\"x\">";
    assert_eq!(pipimanhua::search_path(home), Some(s("/search.php")));
    assert_eq!(pipimanhua::search_path("<form>"), None);
    assert_eq!(
        pipimanhua::search_url("/search.php", "q"),
        "http://www.pipimanhua.com/search.php?searchkey=q&searchtype=all"
    );
    let r = pipimanhua::manga_list(&pipimanhua::filter_choice(&vec![title("q")]), &vec![node("/manhua/12/", "c", "T")]);
    assert!(!r.has_more);
    assert_eq!(r.manga[0].id, "12");
    let m = pipimanhua::manga_details("12", "c", "T", "A", "D", " 热血 | |搞笑", "全本");
    assert_eq!(m.categories, vec![s("热血"), s("搞笑")]);
    assert_eq!(m.status, MangaStatus::Completed);
    let rule = pipimanhua::Chapters { manga_id: s("12") };
    let ch = pipimanhua::chapter_list(&rule, &vec![chapter("/read/12/345.html", " t ", "")]);
    assert_eq!((ch[0].id.as_str(), ch[0].url.as_str()), ("345", "http://www.pipimanhua.com/read/12/345.html"));
    let p = pipimanhua::page_list(&vec![image("", "src"), image("orig", "src")]);
    assert_eq!((p[0].url.as_str(), p[1].url.as_str()), ("src", "orig"));
}

#[test]
fn qiruiyaoye_source() {
    let c = qiruiyaoye::filter_choice(&vec![select("标签", 3)]);
    assert_eq!(qiruiyaoye::manga_list_url(&c, "", 2), "https://www.qiruiyaoye.cn/category/3/page/2.html");
    let c = qiruiyaoye::filter_choice(&vec![select("标签", 3), select("进度", 2)]);
    assert_eq!(qiruiyaoye::manga_list_url(&c, "", 2), "https://www.qiruiyaoye.cn/category/3/end/1/page/2.html");
    let r = qiruiyaoye::manga_list(&c, &vec![node("/book/8/", "background-image: url(/c.png)", "T")]);
    assert_eq!((r.manga[0].id.as_str(), r.manga[0].cover.as_str()), ("8", "https://www.qiruiyaoye.cn/c.png"));
    let rule = qiruiyaoye::Chapters { manga_id: s("8") };
    let ch = qiruiyaoye::chapter_list(&rule, &vec![
        chapter("/chapter/8/3.html", " 第 3 话\u{e66e} ", ""),
        None,
        chapter("/chapter/8/1.html", "第1话", ""),
    ]);
    assert_eq!(ch.len(), 2);
    assert_eq!((ch[0].id.as_str(), ch[0].number, ch[0].title.as_str()), ("3", 3, "第3话"));
    assert_eq!((ch[1].id.as_str(), ch[1].number), ("1", 1));
    assert_eq!(ch[1].url, "https://www.qiruiyaoye.cn/chapter/8/1.html");
}

#[test]
fn veryim_source() {
    let c = veryim::filter_choice(&vec![]);
    assert_eq!(veryim::manga_list_url(&c, "", 3), "https://www.veryim.com/list/3.html");
    let m = veryim::manga_details("5", "c", "T", "甲 乙", " 漫画简介：好 ", "连载中");
    assert_eq!((m.author.as_str(), m.description.as_str()), ("甲, 乙", "好"));
    assert_eq!(m.status, MangaStatus::Ongoing);
    assert!(m.categories.is_empty());
    let rule = veryim::Chapters { manga_id: s("5") };
    let ch = veryim::chapter_list(&rule, &vec![chapter("/manhua/5/20.html", "二", ""), chapter("/manhua/5/10.html", "一", "")]);
    assert_eq!((ch[0].id.as_str(), ch[0].number), ("20", 2));
    assert_eq!((ch[1].id.as_str(), ch[1].number), ("10", 1));
    let encoded = base64::engine::general_purpose::STANDARD.encode("http://a.jpg$qingtiandy$http://b.jpg");
    let html = format!("var qTcms_S_m_murl_e=\"{}\";var qTcms_S_m_murl_e2=\"\"", encoded);
    let list = veryim::image_list(&html).unwrap();
    assert_eq!(list, encoded);
    let pages = veryim::page_list(&list).unwrap();
    assert_eq!(pages.len(), 2);
    assert_eq!((pages[1].index, pages[1].url.as_str()), (1, "http://b.jpg"));
    assert_eq!(veryim::page_list("%%%").unwrap_err(), veryim::ImageListError::BadBase64);
    let not_utf8 = base64::engine::general_purpose::STANDARD.encode([0xffu8, 0xfe]);
    assert_eq!(veryim::page_list(&not_utf8).unwrap_err(), veryim::ImageListError::BadUtf8);
    assert_eq!(veryim::image_list("no markers"), None);
}

#[test]
fn wnacg_source() {
    let base = "https://wnacg.example";
    let c = wnacg::filter_choice(&vec![title("q")]);
    assert_eq!(
        wnacg::manga_list_url(base, &c, "q", 2),
        "https://wnacg.example/search/index.php?q=q&m=&syn=yes&f=_all&s=create_time_DESC&p=2"
    );
    let r = wnacg::manga_list(&vec![node("/photos-index-aid-123.html", "//img/c.jpg", " <em>Hit</em> x ")]);
    assert!(r.has_more);
    assert_eq!((r.manga[0].id.as_str(), r.manga[0].cover.as_str(), r.manga[0].title.as_str()), ("123", "https://img/c.jpg", "Hit x"));
    assert_eq!(wnacg::listing_category("韓漫-其他"), Some(s("21")));
    assert_eq!(wnacg::listing_category("同人誌(全部)"), Some(s("5")));
    assert_eq!(wnacg::listing_category("whatever"), None);
    assert_eq!(wnacg::listing_url(base, "21", 1), "https://wnacg.example/albums-index-page-1-cate-21.html");
    let m = wnacg::manga_details(base, "123", "//img/c.jpg", " T ", " 分類：同人誌&漢化 ", " 簡介：好 ", &vec![s("tag")]);
    assert_eq!(m.cover, "https://img/c.jpg");
    assert_eq!(m.author, "同人誌, 漢化");
    assert_eq!(m.description, "好");
    assert_eq!(m.viewer, Viewer::Vertical);
    let ch = wnacg::chapter_list(base, "123", " 頁數：20P ");
    assert_eq!((ch[0].title.as_str(), ch[0].number), ("20P", 1));
    assert_eq!(ch[0].url, "https://wnacg.example/photos-list-aid-123.html");
    let text = "var x = {\"page_url\":[\"a\",\"b\",]};";
    assert_eq!(wnacg::page_list_json(text), Some(s("[\"a\",\"b\"]")));
    assert_eq!(wnacg::page_list_json("nothing"), None);
}
