//! Properties that hold across the library's operations.
use vstd::prelude::*;
use crate::assemble::{
    chapter_of, drafts_spec, entries_spec, newest_first, numbered, paged, urls_spec, ChapterRule, EntryRule, PageRule,
};
use crate::filters::{
    choice_spec, last_pick, last_title, lemma_choice_last_wins, lemma_table_for, selects_ok, select_ok, table_for,
    SelectTableView,
};
use crate::model::{somes, ChapterNodeView, ListNodeView, ChapterView, DraftView, FilterView, ImageNodeView, PageView};
use crate::text::{
    contains_seq, dec_int, find_from, lemma_find_from, lemma_parse_dec_int, lemma_replace_copies, occurs_at,
    parse_i64_seq, replace_from, replace_seq, split_from, split_seq, lemma_split_from_nonempty,
};

verus! {

proof fn lemma_numbered(drafts: Seq<Option<DraftView>>)
    ensures
        numbered(drafts).len() == somes(drafts).len(),
        forall|i: int, j: int| 0 <= i < j < numbered(drafts).len() ==> numbered(drafts)[i].number < numbered(drafts)[j].number,
        forall|i: int| 0 <= i < numbered(drafts).len() ==> 1 <= #[trigger] numbered(drafts)[i].number <= drafts.len(),
    decreases drafts.len(),
{
    if drafts.len() > 0 {
        lemma_numbered(drafts.drop_last());
    }
}

/// Chapter lists come out newest first: every chapter has a higher number
/// than the ones after it, numbers run from 1 to the number of entries read,
/// and there is one chapter per entry that gave one.
pub proof fn law_chapters_newest_first(drafts: Seq<Option<DraftView>>)
    ensures
        newest_first(drafts).len() == somes(drafts).len(),
        forall|i: int, j: int| 0 <= i < j < newest_first(drafts).len() ==> newest_first(drafts)[i].number > newest_first(drafts)[j].number,
        forall|i: int| 0 <= i < newest_first(drafts).len() ==> 1 <= #[trigger] newest_first(drafts)[i].number <= drafts.len(),
{
    lemma_numbered(drafts);
    let n = numbered(drafts);
    assert forall|i: int, j: int| 0 <= i < j < newest_first(drafts).len() implies newest_first(drafts)[i].number > newest_first(drafts)[j].number by {
        assert(newest_first(drafts)[i] == n[n.len() - 1 - i]);
        assert(newest_first(drafts)[j] == n[n.len() - 1 - j]);
    }
    assert forall|i: int| 0 <= i < newest_first(drafts).len() implies 1 <= #[trigger] newest_first(drafts)[i].number <= drafts.len() by {
        assert(newest_first(drafts)[i] == n[n.len() - 1 - i]);
    }
}

/// Pages keep the order of the images: their indexes strictly increase, each
/// is the position of its image, and there is one page per image read.
pub proof fn law_pages_in_order(urls: Seq<Option<Seq<char>>>)
    ensures
        paged(urls).len() == somes(urls).len(),
        forall|i: int, j: int| 0 <= i < j < paged(urls).len() ==> paged(urls)[i].index < paged(urls)[j].index,
        forall|i: int| 0 <= i < paged(urls).len() ==> (#[trigger] paged(urls)[i]).index < urls.len()
            && urls[paged(urls)[i].index as int] == Some(paged(urls)[i].url),
    decreases urls.len(),
{
    if urls.len() > 0 {
        law_pages_in_order(urls.drop_last());
        let rest = paged(urls.drop_last());
        assert forall|i: int| 0 <= i < paged(urls).len() implies (#[trigger] paged(urls)[i]).index < urls.len()
            && urls[paged(urls)[i].index as int] == Some(paged(urls)[i].url) by {
            if i < rest.len() {
                assert(paged(urls)[i] == rest[i]);
                assert(urls.drop_last()[rest[i].index as int] == urls[rest[i].index as int]);
            }
        }
    }
}

/// Every page of a chapter comes from an image that could be read, the one
/// at the page's index, and its address is what the rule finds there.
pub proof fn law_page_from_image<R: PageRule>(rule: &R, nodes: Seq<Option<ImageNodeView>>)
    ensures
        forall|i: int| 0 <= i < paged(urls_spec(rule, nodes)).len() ==> (#[trigger] paged(urls_spec(rule, nodes))[i]).index
            < nodes.len() && nodes[paged(urls_spec(rule, nodes))[i].index as int] is Some && paged(urls_spec(rule, nodes))[i].url
            == rule.url_spec(nodes[paged(urls_spec(rule, nodes))[i].index as int]->0),
{
    let u = urls_spec(rule, nodes);
    law_pages_in_order(u);
    assert forall|i: int| 0 <= i < paged(u).len() implies (#[trigger] paged(u)[i]).index < nodes.len()
        && nodes[paged(u)[i].index as int] is Some && paged(u)[i].url == rule.url_spec(nodes[paged(u)[i].index as int]->0) by {
        let k = paged(u)[i].index as int;
        assert(u[k] == Some(paged(u)[i].url));
    }
}

proof fn lemma_numbered_source(drafts: Seq<Option<DraftView>>)
    ensures
        forall|i: int| 0 <= i < numbered(drafts).len() ==> 1 <= (#[trigger] numbered(drafts)[i]).number <= drafts.len()
            && drafts[numbered(drafts)[i].number - 1] is Some && numbered(drafts)[i] == chapter_of(
            drafts[numbered(drafts)[i].number - 1]->0,
            numbered(drafts)[i].number,
        ),
    decreases drafts.len(),
{
    if drafts.len() > 0 {
        let prev = drafts.drop_last();
        lemma_numbered_source(prev);
        let rest = numbered(prev);
        assert forall|i: int| 0 <= i < numbered(drafts).len() implies 1 <= (#[trigger] numbered(drafts)[i]).number
            <= drafts.len() && drafts[numbered(drafts)[i].number - 1] is Some && numbered(drafts)[i] == chapter_of(
            drafts[numbered(drafts)[i].number - 1]->0,
            numbered(drafts)[i].number,
        ) by {
            if i < rest.len() {
                assert(numbered(drafts)[i] == rest[i]);
                assert(prev[rest[i].number - 1] == drafts[rest[i].number - 1]);
            }
        }
    }
}

/// Every chapter of a list comes from the entry at position `number - 1`,
/// which gave a chapter, and carries that entry's id, title, price label and
/// address.
pub proof fn law_chapter_from_entry(drafts: Seq<Option<DraftView>>)
    ensures
        forall|i: int| 0 <= i < newest_first(drafts).len() ==> 1 <= (#[trigger] newest_first(drafts)[i]).number
            <= drafts.len() && drafts[newest_first(drafts)[i].number - 1] is Some && newest_first(drafts)[i] == chapter_of(
            drafts[newest_first(drafts)[i].number - 1]->0,
            newest_first(drafts)[i].number,
        ),
{
    lemma_numbered_source(drafts);
    let n = numbered(drafts);
    assert forall|i: int| 0 <= i < newest_first(drafts).len() implies 1 <= (#[trigger] newest_first(drafts)[i]).number
        <= drafts.len() && drafts[newest_first(drafts)[i].number - 1] is Some && newest_first(drafts)[i] == chapter_of(
        drafts[newest_first(drafts)[i].number - 1]->0,
        newest_first(drafts)[i].number,
    ) by {
        assert(newest_first(drafts)[i] == n[n.len() - 1 - i]);
    }
}

/// A chapter entry that gave a chapter is an entry that could be read, and
/// what it gave is what the rule makes of it.
pub proof fn lemma_draft_from_node<R: ChapterRule>(rule: &R, nodes: Seq<Option<ChapterNodeView>>, k: int)
    requires
        0 <= k < nodes.len(),
        drafts_spec(rule, nodes)[k] is Some,
    ensures
        nodes[k] is Some,
        rule.draft_spec(nodes[k]->0) == drafts_spec(rule, nodes)[k],
{
}

/// The comics of a listing are, in order, what the rule makes of the
/// entries that could be read.
pub proof fn law_entries_in_order<R: EntryRule>(rule: &R, nodes: Seq<Option<ListNodeView>>)
    ensures
        entries_spec(rule, nodes).len() == somes(nodes).len(),
        forall|i: int| 0 <= i < somes(nodes).len() ==> #[trigger] entries_spec(rule, nodes)[i] == rule.entry_spec(somes(nodes)[i]),
{
}

/// The value chosen in each select box is empty (nothing chosen) or one of
/// the box's options, whatever the filters.
pub proof fn law_choice_within_options(tables: Seq<SelectTableView>, filters: Seq<FilterView>)
    requires
        selects_ok(tables, filters),
    ensures
        choice_spec(tables, filters).picks.len() == tables.len(),
        forall|t: int| 0 <= t < tables.len() ==> (#[trigger] choice_spec(tables, filters).picks[t]).len() == 0
            || tables[t].values.contains(choice_spec(tables, filters).picks[t]),
    decreases filters.len(),
{
    if filters.len() > 0 {
        let prefix = filters.drop_last();
        assert forall|i: int| 0 <= i < prefix.len() implies #[trigger] select_ok(tables, prefix[i]) by {
            assert(select_ok(tables, filters[i]));
        }
        law_choice_within_options(tables, prefix);
        assert(select_ok(tables, filters[filters.len() - 1]));
        match filters.last() {
            FilterView::Select { name, index } => {
                lemma_table_for(tables, name);
                match table_for(tables, name) {
                    Some(t) => {
                        assert(tables[t].values[index as int] == choice_spec(tables, filters).picks[t]);
                    },
                    None => {},
                }
            },
            _ => {},
        }
    }
}

/// Only the last title and, in each box, the last selection falling in it
/// count: two filter lists that agree on those give the same choice, however
/// the rest of them differs (order, other kinds, unknown boxes).
pub proof fn law_choice_last_wins(tables: Seq<SelectTableView>, f1: Seq<FilterView>, f2: Seq<FilterView>)
    requires
        last_title(f1) == last_title(f2),
        forall|t: int| 0 <= t < tables.len() ==> #[trigger] last_pick(tables, f1, t) == last_pick(tables, f2, t),
    ensures
        choice_spec(tables, f1) == choice_spec(tables, f2),
{
    lemma_choice_last_wins(tables, f1);
    lemma_choice_last_wins(tables, f2);
    assert(choice_spec(tables, f1).picks =~= choice_spec(tables, f2).picks);
}

/// An occurrence of `pat` means `find_from` finds one.
pub proof fn lemma_occurs_found(s: Seq<char>, pat: Seq<char>, k: int)
    requires
        occurs_at(s, pat, k),
    ensures
        contains_seq(s, pat),
{
    lemma_find_from(s, pat, 0);
}

/// Removing a non-empty prefix `p` from `p + x`, when `x` does not contain
/// `p`, gives `x` back.
pub proof fn law_strip_prefix(p: Seq<char>, x: Seq<char>)
    requires
        p.len() > 0,
        !contains_seq(x, p),
    ensures
        replace_seq(p + x, p, Seq::empty()) == x,
{
    let s = p + x;
    assert(s.subrange(0, p.len() as int) =~= p);
    assert forall|j: int| p.len() <= j < s.len() implies !occurs_at(s, p, j) by {
        if occurs_at(s, p, j) {
            assert(x.subrange(j - p.len(), j - p.len() + p.len()) =~= s.subrange(j, j + p.len()));
            lemma_occurs_found(x, p, j - p.len());
        }
    }
    lemma_replace_rest(s, p, p.len() as int);
    assert(s.subrange(p.len() as int, s.len() as int) =~= x);
    assert(Seq::<char>::empty() + x =~= x);
}

proof fn lemma_replace_rest(s: Seq<char>, p: Seq<char>, i: int)
    requires
        p.len() > 0,
        0 <= i <= s.len(),
        forall|j: int| i <= j < s.len() ==> !occurs_at(s, p, j),
    ensures
        replace_from(s, p, Seq::empty(), i) == s.subrange(i, s.len() as int),
    decreases s.len() - i,
{
    if i < s.len() {
        lemma_replace_rest(s, p, i + 1);
        assert(seq![s[i]] + s.subrange(i + 1, s.len() as int) =~= s.subrange(i, s.len() as int));
    } else {
        assert(s.subrange(i, s.len() as int) =~= Seq::<char>::empty());
    }
}

/// Removing a non-empty `p` from `x + p`, when `p` occurs in `x + p` only at
/// its end, gives `x` back.
pub proof fn law_strip_suffix(x: Seq<char>, p: Seq<char>)
    requires
        p.len() > 0,
        forall|j: int| 0 <= j < x.len() ==> !occurs_at(x + p, p, j),
    ensures
        replace_seq(x + p, p, Seq::empty()) == x,
{
    let s = x + p;
    lemma_replace_copies(s, p, Seq::empty(), 0, x.len() as int);
    assert(s.subrange(x.len() as int, s.len() as int) =~= p);
    assert(occurs_at(s, p, x.len() as int));
    assert(replace_from(s, p, Seq::empty(), s.len() as int) =~= Seq::<char>::empty());
    assert(s.subrange(0, x.len() as int) =~= x);
    assert(x + (Seq::<char>::empty() + Seq::<char>::empty()) =~= x);
}

/// When `x` does not contain `p` and the last character of `p` is not in
/// `y`, `p` does not occur in `x + y` either.
pub proof fn lemma_no_occurrence_across(x: Seq<char>, y: Seq<char>, p: Seq<char>)
    requires
        p.len() > 0,
        !contains_seq(x, p),
        forall|i: int| 0 <= i < y.len() ==> y[i] != p.last(),
    ensures
        !contains_seq(x + y, p),
{
    let s = x + y;
    lemma_find_from(s, p, 0);
    if contains_seq(s, p) {
        let k = find_from(s, p, 0)->0;
        if k + p.len() <= x.len() {
            assert(x.subrange(k, k + p.len()) =~= s.subrange(k, k + p.len()));
            lemma_occurs_found(x, p, k);
        } else {
            let q = k + p.len() - 1;
            assert(s[q] == s.subrange(k, k + p.len())[p.len() - 1]);
            assert(s[q] == y[q - x.len()]);
        }
    }
}

proof fn lemma_split_from_last(s: Seq<char>, sep: Seq<char>, i: int, j: int)
    requires
        sep.len() == 1,
        0 <= i <= j <= s.len(),
        forall|k: int| j <= k ==> !occurs_at(s, sep, k),
        i == j || (i <= j - 1 && occurs_at(s, sep, j - 1)),
    ensures
        split_from(s, sep, i).last() == s.subrange(j, s.len() as int),
    decreases s.len() + 1 - i,
{
    lemma_find_from(s, sep, i);
    match find_from(s, sep, i) {
        None => {},
        Some(k) => {
            lemma_split_from_last(s, sep, k + 1, j);
            lemma_split_from_nonempty(s, sep, k + 1);
        },
    }
}

/// The last piece of `x + sep + y`, split on a one-character `sep` that does
/// not occur in `y`, is `y`.
pub proof fn law_split_last_piece(x: Seq<char>, sep: Seq<char>, y: Seq<char>)
    requires
        sep.len() == 1,
        !contains_seq(y, sep),
    ensures
        split_seq(x + sep + y, sep).last() == y,
{
    let s = x + sep + y;
    let j: int = x.len() as int + 1;
    assert(s.subrange(x.len() as int, j) =~= sep);
    assert forall|k: int| j <= k implies !occurs_at(s, sep, k) by {
        if occurs_at(s, sep, k) {
            assert(y.subrange(k - j, k - j + 1) =~= s.subrange(k, k + 1));
            lemma_occurs_found(y, sep, k - j);
        }
    }
    lemma_split_from_last(s, sep, 0, j);
    assert(s.subrange(j, s.len() as int) =~= y);
}

/// Removing `.html` from `c + ".html"` gives `c`, when `c` does not contain
/// `.html`.
pub proof fn law_strip_html(c: Seq<char>)
    requires
        !contains_seq(c, ".html"@),
    ensures
        replace_seq(c + ".html"@, ".html"@, Seq::empty()) == c,
{
    reveal_strlit(".html");
    let h = ".html"@;
    assert forall|j: int| 0 <= j < c.len() implies !occurs_at(c + h, h, j) by {
        if occurs_at(c + h, h, j) {
            if j + h.len() <= c.len() {
                assert(c.subrange(j, j + h.len()) =~= (c + h).subrange(j, j + h.len()));
                lemma_occurs_found(c, h, j);
            } else {
                assert((c + h)[c.len() as int] == (c + h).subrange(j, j + h.len())[c.len() - j]);
            }
        }
    }
    law_strip_suffix(c, h);
}

/// Removing a prefix `p` that begins with `/` and then every `/` from
/// `p + id + "/"` gives `id`, when `id` contains no `/`.
pub proof fn law_strip_slashed(p: Seq<char>, id: Seq<char>)
    requires
        p.len() >= 2,
        p[0] == '/',
        !contains_seq(id, "/"@),
    ensures
        replace_seq(replace_seq(p + id + "/"@, p, ""@), "/"@, ""@) == id,
{
    reveal_strlit("/");
    reveal_strlit("");
    assert(""@ =~= Seq::<char>::empty());
    let y = id + "/"@;
    assert forall|k: int| 0 <= k < id.len() && id[k] == '/' implies false by {
        assert(id.subrange(k, k + 1) =~= "/"@);
        lemma_occurs_found(id, "/"@, k);
    }
    lemma_find_from(y, p, 0);
    if contains_seq(y, p) {
        let k = find_from(y, p, 0)->0;
        assert(y[k] == y.subrange(k, k + p.len())[0]);
    }
    assert(p + id + "/"@ =~= p + y);
    law_strip_prefix(p, y);
    assert forall|j: int| 0 <= j < id.len() implies !occurs_at(y, "/"@, j) by {
        if occurs_at(y, "/"@, j) {
            assert(y[j] == y.subrange(j, j + 1)[0]);
        }
    }
    law_strip_suffix(id, "/"@);
}

/// Writing an `i64` in decimal and parsing it back gives the same number.
pub proof fn law_decimal_roundtrip(n: i64)
    ensures
        parse_i64_seq(dec_int(n as int)) == Some(n),
{
    lemma_parse_dec_int(n as int);
}

} // verus!
