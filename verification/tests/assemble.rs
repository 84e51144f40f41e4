use zh_sources::assemble::{number_newest_first, pages_from_urls, reversed_drafts, status_by_markers};
use zh_sources::filters::{apply_filters, select_table, selects_valid};
use zh_sources::model::{ChapterDraft, Filter, MangaStatus};

fn draft(id: &str) -> ChapterDraft {
    ChapterDraft { id: id.to_string(), title: format!("t{}", id), scanlator: String::new(), url: format!("u{}", id) }
}

#[test]
fn chapters_are_numbered_by_position_and_listed_newest_first() {
    let drafts = vec![Some(draft("a")), None, Some(draft("c"))];
    let r = number_newest_first(&drafts);
    assert_eq!(r.len(), 2);
    assert_eq!(r[0].id, "c");
    assert_eq!(r[0].number, 3);
    assert_eq!(r[0].url, "uc");
    assert_eq!(r[1].id, "a");
    assert_eq!(r[1].number, 1);
}

#[test]
fn chapters_numbered_from_the_end() {
    let drafts = vec![Some(draft("new")), Some(draft("mid")), Some(draft("old"))];
    let r = number_newest_first(&reversed_drafts(drafts));
    let ids: Vec<&str> = r.iter().map(|c| c.id.as_str()).collect();
    assert_eq!(ids, vec!["new", "mid", "old"]);
    let numbers: Vec<usize> = r.iter().map(|c| c.number).collect();
    assert_eq!(numbers, vec![3, 2, 1]);
}

#[test]
fn pages_are_indexed_by_position() {
    let r = pages_from_urls(vec!["x".to_string(), "y".to_string()]);
    assert_eq!(r.len(), 2);
    assert_eq!((r[0].index, r[0].url.as_str()), (0, "x"));
    assert_eq!((r[1].index, r[1].url.as_str()), (1, "y"));
}

#[test]
fn status_markers() {
    assert_eq!(status_by_markers("已完结", "完结", "连载中"), MangaStatus::Completed);
    assert_eq!(status_by_markers("连载中", "完结", "连载中"), MangaStatus::Ongoing);
    assert_eq!(status_by_markers("休刊", "完结", "连载中"), MangaStatus::Unknown);
}

#[test]
fn filters_last_title_and_selection_win() {
    let tables = vec![select_table("进度", &["0", "1", "2"]), select_table("排序", &["hits", "time"])];
    let filters = vec![
        Filter::Title("first".to_string()),
        Filter::Select { name: "进度".to_string(), index: 1 },
        Filter::Other,
        Filter::Select { name: "unknown".to_string(), index: 99 },
        Filter::Title("second".to_string()),
        Filter::Select { name: "进度".to_string(), index: 2 },
    ];
    assert!(selects_valid(&filters, &tables));
    let c = apply_filters(&filters, &tables);
    assert_eq!(c.query, "second");
    assert_eq!(c.picks, vec!["2".to_string(), String::new()]);
}

#[test]
fn out_of_range_selection_is_reported() {
    let tables = vec![select_table("进度", &["0", "1", "2"])];
    assert!(!selects_valid(&vec![Filter::Select { name: "进度".to_string(), index: 3 }], &tables));
    assert!(!selects_valid(&vec![Filter::Select { name: "进度".to_string(), index: -1 }], &tables));
    assert!(selects_valid(&vec![Filter::Select { name: "other".to_string(), index: -1 }], &tables));
}
