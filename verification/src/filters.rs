//! Turning the filters of a request into the search text and the value of
//! each select box a source offers.
use vstd::prelude::*;
use crate::model::{seq_views, Filter, FilterView};
use crate::text::{text_eq, views};

verus! {

/// A select box: its name and the value behind each of its options.
#[derive(Clone, Debug)]
pub struct SelectTable {
    pub name: String,
    pub values: Vec<String>,
}

/// The abstract contents of a [`SelectTable`].
#[verifier::ext_equal]
pub struct SelectTableView {
    pub name: Seq<char>,
    pub values: Seq<Seq<char>>,
}

impl View for SelectTable {
    type V = SelectTableView;

    open spec fn view(&self) -> SelectTableView {
        SelectTableView { name: self.name@, values: views(self.values@) }
    }
}

/// A select box named `name`, with one option per value.
pub fn select_table(name: &str, values: &[&str]) -> (r: SelectTable)
    ensures
        r@ == (SelectTableView { name: name@, values: values@.map_values(|v: &str| v@) }),
{
    let mut vs: Vec<String> = Vec::new();
    let mut i: usize = 0;
    while i < values.len()
        invariant
            i <= values@.len(),
            views(vs@) == values@.map_values(|v: &str| v@).take(i as int),
        decreases values@.len() - i,
    {
        let v: String = values[i].to_owned();
        assert(v@ == values@[i as int]@);
        let ghost before = views(vs@);
        vs.push(v);
        assert(views(vs@) =~= before.push(v@));
        assert(views(vs@) =~= values@.map_values(|v: &str| v@).take(i + 1));
        i = i + 1;
    }
    assert(values@.map_values(|v: &str| v@).take(values@.len() as int) =~= values@.map_values(|v: &str| v@));
    SelectTable { name: name.to_owned(), values: vs }
}

/// The first select box at or after position `t` that is named `name`.
pub open spec fn table_from(tables: Seq<SelectTableView>, name: Seq<char>, t: int) -> Option<int>
    decreases tables.len() - t,
{
    if t < 0 || t >= tables.len() {
        None
    } else if tables[t].name == name {
        Some(t)
    } else {
        table_from(tables, name, t + 1)
    }
}

/// The first select box named `name`.
pub open spec fn table_for(tables: Seq<SelectTableView>, name: Seq<char>) -> Option<int> {
    table_from(tables, name, 0)
}

/// A found select box is one of the boxes.
pub proof fn lemma_table_for(tables: Seq<SelectTableView>, name: Seq<char>)
    ensures
        table_for(tables, name) matches Some(k) ==> 0 <= k < tables.len(),
{
    lemma_table_from(tables, name, 0);
}

proof fn lemma_table_from(tables: Seq<SelectTableView>, name: Seq<char>, t: int)
    requires
        0 <= t,
    ensures
        table_from(tables, name, t) matches Some(k) ==> t <= k < tables.len(),
    decreases tables.len() - t,
{
    if t < tables.len() && tables[t].name != name {
        lemma_table_from(tables, name, t + 1);
    }
}

/// A selection in a box the source knows names one of its options.
pub open spec fn select_ok(tables: Seq<SelectTableView>, f: FilterView) -> bool {
    match f {
        FilterView::Select { name, index } => match table_for(tables, name) {
            Some(t) => 0 <= index < tables[t].values.len(),
            None => true,
        },
        _ => true,
    }
}

/// Every selection in a known box names one of its options.
pub open spec fn selects_ok(tables: Seq<SelectTableView>, filters: Seq<FilterView>) -> bool {
    forall|i: int| 0 <= i < filters.len() ==> #[trigger] select_ok(tables, filters[i])
}

/// The search text and the value chosen in each select box.
#[derive(Clone, Debug)]
pub struct FilterChoice {
    pub query: String,
    pub picks: Vec<String>,
}

/// The abstract contents of a [`FilterChoice`].
#[verifier::ext_equal]
pub struct ChoiceView {
    pub query: Seq<char>,
    pub picks: Seq<Seq<char>>,
}

impl View for FilterChoice {
    type V = ChoiceView;

    open spec fn view(&self) -> ChoiceView {
        ChoiceView { query: self.query@, picks: views(self.picks@) }
    }
}

/// The filters read in order: the last title filter gives the search text,
/// the last selection in each known box gives its value (empty when none),
/// and everything else is passed over.
pub open spec fn choice_spec(tables: Seq<SelectTableView>, filters: Seq<FilterView>) -> ChoiceView
    decreases filters.len(),
{
    if filters.len() == 0 {
        ChoiceView { query: Seq::empty(), picks: Seq::new(tables.len(), |i: int| Seq::<char>::empty()) }
    } else {
        let c = choice_spec(tables, filters.drop_last());
        match filters.last() {
            FilterView::Title(q) => ChoiceView { query: q, picks: c.picks },
            FilterView::Select { name, index } => match table_for(tables, name) {
                Some(t) => ChoiceView { query: c.query, picks: c.picks.update(t, tables[t].values[index as int]) },
                None => c,
            },
            FilterView::Other => c,
        }
    }
}

proof fn lemma_choice_len(tables: Seq<SelectTableView>, filters: Seq<FilterView>)
    ensures
        choice_spec(tables, filters).picks.len() == tables.len(),
    decreases filters.len(),
{
    if filters.len() > 0 {
        lemma_choice_len(tables, filters.drop_last());
        match filters.last() {
            FilterView::Select { name, index } => {
                lemma_table_from(tables, name, 0);
            },
            _ => {},
        }
    }
}

/// The text of the last title filter (empty when there is none).
pub open spec fn last_title(filters: Seq<FilterView>) -> Seq<char>
    decreases filters.len(),
{
    if filters.len() == 0 {
        Seq::empty()
    } else {
        match filters.last() {
            FilterView::Title(q) => q,
            _ => last_title(filters.drop_last()),
        }
    }
}

/// The option picked by the last selection that falls in box `t` (empty
/// when no selection does).
pub open spec fn last_pick(tables: Seq<SelectTableView>, filters: Seq<FilterView>, t: int) -> Seq<char>
    decreases filters.len(),
{
    if filters.len() == 0 {
        Seq::empty()
    } else {
        match filters.last() {
            FilterView::Select { name, index } => if table_for(tables, name) == Some(t) {
                tables[t].values[index as int]
            } else {
                last_pick(tables, filters.drop_last(), t)
            },
            _ => last_pick(tables, filters.drop_last(), t),
        }
    }
}

/// The choice is the last title's text and, in each box, the option of the
/// last selection falling in it.
pub proof fn lemma_choice_last_wins(tables: Seq<SelectTableView>, filters: Seq<FilterView>)
    ensures
        choice_spec(tables, filters).query == last_title(filters),
        choice_spec(tables, filters).picks.len() == tables.len(),
        forall|t: int| 0 <= t < tables.len() ==> #[trigger] choice_spec(tables, filters).picks[t] == last_pick(tables, filters, t),
    decreases filters.len(),
{
    lemma_choice_len(tables, filters);
    if filters.len() > 0 {
        lemma_choice_last_wins(tables, filters.drop_last());
        match filters.last() {
            FilterView::Select { name, index } => {
                lemma_table_from(tables, name, 0);
            },
            _ => {},
        }
    }
}

/// Among boxes with distinct names, the box named like box `b` is box `b`.
pub proof fn lemma_table_hit(t: Seq<SelectTableView>, names: Seq<Seq<char>>, b: int, k: int)
    requires
        0 <= k <= b < t.len(),
        t.len() == names.len(),
        forall|a: int| 0 <= a < t.len() ==> #[trigger] t[a].name == names[a],
        forall|a: int, c: int| 0 <= a < names.len() && 0 <= c < names.len() && a != c ==> #[trigger] names[a] != #[trigger] names[c],
    ensures
        table_from(t, names[b], k) == Some(b),
    decreases b - k,
{
    if k < b {
        assert(t[k].name != names[b]);
        lemma_table_hit(t, names, b, k + 1);
    }
}

/// A lone selection of option `i` in box `b` sets that box's value to the
/// box's `i`-th value, and leaves the search text and the other boxes empty.
pub proof fn law_lone_selection(tables: Seq<SelectTableView>, b: int, i: i64)
    requires
        0 <= b < tables.len(),
        0 <= i < tables[b].values.len(),
        table_for(tables, tables[b].name) == Some(b),
    ensures
        choice_spec(tables, seq![FilterView::Select { name: tables[b].name, index: i }]) == (ChoiceView {
            query: Seq::empty(),
            picks: Seq::new(tables.len(), |k: int| Seq::<char>::empty()).update(b, tables[b].values[i as int]),
        }),
{
    let f = seq![FilterView::Select { name: tables[b].name, index: i }];
    let e = Seq::<FilterView>::empty();
    assert(f.drop_last() =~= e);
    assert(f.len() == 1);
    assert(f.last() == FilterView::Select { name: tables[b].name, index: i });
    let c0 = choice_spec(tables, e);
    assert(c0.query == Seq::<char>::empty());
    assert(c0.picks == Seq::new(tables.len(), |k: int| Seq::<char>::empty()));
    assert(choice_spec(tables, f) == (ChoiceView { query: c0.query, picks: c0.picks.update(b, tables[b].values[i as int]) }));
    assert(choice_spec(tables, f).picks =~= Seq::new(tables.len(), |k: int| Seq::<char>::empty()).update(b, tables[b].values[i as int]));
}

/// The position of the first select box named `name`.
fn find_table(tables: &Vec<SelectTable>, name: &str) -> (r: Option<usize>)
    ensures
        r matches Some(t) ==> table_for(seq_views(tables@), name@) == Some(t as int),
        r is None ==> table_for(seq_views(tables@), name@) is None,
{
    let mut t: usize = 0;
    while t < tables.len()
        invariant
            t <= tables@.len(),
            table_for(seq_views(tables@), name@) == table_from(seq_views(tables@), name@, t as int),
        decreases tables@.len() - t,
    {
        assert(seq_views(tables@)[t as int] == tables@[t as int]@);
        if text_eq(tables[t].name.as_str(), name) {
            return Some(t);
        }
        t = t + 1;
    }
    None
}

/// Whether every selection in a known box names one of its options.
pub fn selects_valid(filters: &Vec<Filter>, tables: &Vec<SelectTable>) -> (r: bool)
    ensures
        r == selects_ok(seq_views(tables@), seq_views(filters@)),
{
    let mut i: usize = 0;
    while i < filters.len()
        invariant
            i <= filters@.len(),
            forall|j: int| 0 <= j < i ==> #[trigger] select_ok(seq_views(tables@), seq_views(filters@)[j]),
        decreases filters@.len() - i,
    {
        assert(seq_views(filters@)[i as int] == filters@[i as int]@);
        match &filters[i] {
            Filter::Select { name, index } => {
                match find_table(tables, name.as_str()) {
                    Some(t) => {
                        proof {
                            lemma_table_from(seq_views(tables@), name@, 0);
                        }
                        assert(seq_views(tables@)[t as int] == tables@[t as int]@);
                        assert(seq_views(tables@)[t as int].values.len() == tables@[t as int].values@.len());
                        assert(filters@[i as int]@ == (FilterView::Select { name: name@, index: *index }));
                        if *index < 0 || *index as u64 >= tables[t].values.len() as u64 {
                            assert(!select_ok(seq_views(tables@), seq_views(filters@)[i as int]));
                            return false;
                        }
                    },
                    None => {},
                }
            },
            _ => {},
        }
        i = i + 1;
    }
    true
}

/// Reads the filters in order: the last title filter gives the search text,
/// the last selection in each known box gives its value (empty when none).
pub fn apply_filters(filters: &Vec<Filter>, tables: &Vec<SelectTable>) -> (r: FilterChoice)
    requires
        selects_ok(seq_views(tables@), seq_views(filters@)),
    ensures
        r@ == choice_spec(seq_views(tables@), seq_views(filters@)),
{
    let ghost tv = seq_views(tables@);
    let mut query = String::new();
    let mut picks: Vec<String> = Vec::new();
    let mut k: usize = 0;
    while k < tables.len()
        invariant
            k <= tables@.len(),
            picks@.len() == k,
            forall|j: int| 0 <= j < k ==> #[trigger] picks@[j]@ == Seq::<char>::empty(),
        decreases tables@.len() - k,
    {
        picks.push(String::new());
        k = k + 1;
    }
    assert(views(picks@) =~= choice_spec(tv, seq_views(filters@).take(0)).picks);
    assert(seq_views(filters@).take(0) =~= Seq::<FilterView>::empty());
    let mut i: usize = 0;
    while i < filters.len()
        invariant
            i <= filters@.len(),
            tv == seq_views(tables@),
            selects_ok(tv, seq_views(filters@)),
            picks@.len() == tables@.len(),
            (ChoiceView { query: query@, picks: views(picks@) }) == choice_spec(tv, seq_views(filters@).take(i as int)),
        decreases filters@.len() - i,
    {
        let ghost prefix = seq_views(filters@).take(i + 1);
        assert(prefix.drop_last() =~= seq_views(filters@).take(i as int));
        assert(prefix.last() == filters@[i as int]@);
        assert(select_ok(tv, seq_views(filters@)[i as int]));
        proof {
            lemma_choice_len(tv, seq_views(filters@).take(i as int));
        }
        let ghost old_c = choice_spec(tv, seq_views(filters@).take(i as int));
        assert(old_c.query == query@);
        match &filters[i] {
            Filter::Title(q) => {
                query = q.clone();
                assert(prefix.last() == FilterView::Title(q@));
                assert((ChoiceView { query: query@, picks: views(picks@) }) =~= choice_spec(tv, prefix));
            },
            Filter::Select { name, index } => {
                match find_table(tables, name.as_str()) {
                    Some(t) => {
                        proof {
                            lemma_table_from(tv, name@, 0);
                        }
                        assert(tv[t as int] == tables@[t as int]@);
                        assert(prefix.last() == (FilterView::Select { name: name@, index: *index }));
                        assert(tv[t as int].values.len() == tables@[t as int].values@.len());
                        assert(0 <= *index < tables@[t as int].values@.len());
                        let len = tables[t].values.len();
                        assert((*index as int) < (len as int));
                        let ix = *index as usize;
                        assert(ix as int == *index as int);
                        let v = tables[t].values[ix].clone();
                        assert(v@ == tv[t as int].values[ix as int]);
                        let ghost before = views(picks@);
                        picks[t] = v;
                        assert(views(picks@) =~= before.update(t as int, tv[t as int].values[ix as int]));
                        assert(table_for(tv, name@) == Some(t as int));
                        assert(old_c.picks == before);
                        assert(choice_spec(tv, prefix).picks == old_c.picks.update(t as int, tv[t as int].values[*index as int]));
                        assert((ChoiceView { query: query@, picks: views(picks@) }) =~= choice_spec(tv, prefix));
                    },
                    None => {
                        assert(prefix.last() == (FilterView::Select { name: name@, index: *index }));
                    },
                }
            },
            Filter::Other => {
                assert(prefix.last() == FilterView::Other);
            },
        }
        i = i + 1;
    }
    assert(seq_views(filters@).take(filters@.len() as int) =~= seq_views(filters@));
    FilterChoice { query, picks }
}

} // verus!
