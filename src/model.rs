//! Content records and the render model built from them.
use vstd::prelude::*;
use chrono::DateTime;
use crate::order::{goes_before, is_stable_order, lemma_stable_order_unique, sort_desc, SortKey};
use crate::text::chars_of;

verus! {

/// An instant in UTC: seconds since the Unix epoch and the nanoseconds past
/// that second (above one billion during a leap second).
#[derive(Clone, Copy, Debug, PartialEq, Eq, Structural)]
pub struct Timestamp {
    pub secs: i64,
    pub nanos: u32,
}

/// The position of an instant on a line: seconds first, then nanoseconds.
pub open spec fn time_rank(t: Timestamp) -> int {
    t.secs as int * 4294967296 + t.nanos as int
}

/// Arbitrary structured metadata, carried through without interpretation.
pub enum Meta {
    Null,
    Bool(bool),
    /// A number, as its decimal text.
    Number(String),
    Text(String),
    Array(Vec<Meta>),
    Object(Vec<(String, Meta)>),
}

/// One content record.
pub struct Content {
    pub id: String,
    pub title: String,
    pub description: String,
    /// The publication state, such as `DRAFT`.
    pub target: String,
    pub tags: Vec<String>,
    pub create_time: Timestamp,
    pub meta: Meta,
    /// The markdown body.
    pub content: String,
    /// The path of the record relative to the content directory.
    pub path: String,
}

/// A named bucket of members.
pub struct ItemGroup<T> {
    pub name: String,
    pub list: Vec<T>,
}

impl<T> ItemGroup<T> {
    pub fn new(name: &str) -> (r: ItemGroup<T>)
        ensures
            r.name@ == name@,
            r.list@ == Seq::<T>::empty(),
    {
        ItemGroup { name: name.to_owned(), list: Vec::new() }
    }
}

/// A group as a name and its members (positions in the record sequence).
pub type GroupView = (Seq<char>, Seq<usize>);

pub open spec fn groups_view(gs: Seq<ItemGroup<usize>>) -> Seq<GroupView> {
    gs.map_values(|g: ItemGroup<usize>| (g.name@, g.list@))
}

/// The first group at or after `j` named `key`.
pub open spec fn find_from(gs: Seq<GroupView>, key: Seq<char>, j: int) -> Option<int>
    decreases gs.len() - j,
{
    if j < 0 || j >= gs.len() {
        None
    } else if gs[j].0 == key {
        Some(j)
    } else {
        find_from(gs, key, j + 1)
    }
}

/// Adds member `r` to the group named `key`, opening that group at the end
/// when there is none yet.
pub open spec fn group_step(gs: Seq<GroupView>, key: Seq<char>, r: usize) -> Seq<GroupView> {
    match find_from(gs, key, 0) {
        Some(j) => gs.update(j, (key, gs[j].1.push(r))),
        None => gs.push((key, seq![r])),
    }
}

/// The groups after adding record `r` under the first `m` of its tags.
pub open spec fn add_tags(gs: Seq<GroupView>, ts: Seq<Seq<char>>, r: usize, m: int) -> Seq<GroupView>
    decreases m,
{
    if m <= 0 {
        gs
    } else {
        group_step(add_tags(gs, ts, r, m - 1), ts[m - 1], r)
    }
}

/// The tag groups of the first `i` records, in order of first appearance.
pub open spec fn tag_groups(tags: Seq<Seq<Seq<char>>>, i: int) -> Seq<GroupView>
    decreases i,
{
    if i <= 0 {
        Seq::empty()
    } else {
        add_tags(tag_groups(tags, i - 1), tags[i - 1], (i - 1) as usize, tags[i - 1].len() as int)
    }
}

/// The date groups of the first `i` records, in order of first appearance;
/// a record without a label joins no group.
pub open spec fn day_groups(labels: Seq<Option<Seq<char>>>, i: int) -> Seq<GroupView>
    decreases i,
{
    if i <= 0 {
        Seq::empty()
    } else {
        match labels[i - 1] {
            Some(l) => group_step(day_groups(labels, i - 1), l, (i - 1) as usize),
            None => day_groups(labels, i - 1),
        }
    }
}

pub open spec fn tags_of(cs: Seq<Content>) -> Seq<Seq<Seq<char>>> {
    cs.map_values(|c: Content| c.tags@.map_values(|t: String| t@))
}

/// Records keyed by creation time.
pub open spec fn time_keys(cs: Seq<Content>) -> Seq<(int, Seq<char>)> {
    cs.map_values(|c: Content| (time_rank(c.create_time), Seq::<char>::empty()))
}

/// Groups keyed by their number of members.
pub open spec fn size_keys(gs: Seq<GroupView>) -> Seq<(int, Seq<char>)> {
    gs.map_values(|g: GroupView| (g.1.len() as int, Seq::<char>::empty()))
}

/// Groups keyed by their name.
pub open spec fn name_keys(gs: Seq<GroupView>) -> Seq<(int, Seq<char>)> {
    gs.map_values(|g: GroupView| (0int, g.0))
}

/// `r` is `xs` rearranged by a stable descending order of `keys`.
pub open spec fn sorted_by<A>(keys: Seq<(int, Seq<char>)>, xs: Seq<A>, r: Seq<A>) -> bool {
    exists|o: Seq<int>| #[trigger] is_stable_order(keys, o) && r == o.map_values(|j: int| xs[j])
}

/// Sorting is a function: two results of sorting the same sequence by the
/// same keys are equal.
pub proof fn lemma_sorted_by_unique<A>(keys: Seq<(int, Seq<char>)>, xs: Seq<A>, r1: Seq<A>, r2: Seq<A>)
    requires
        sorted_by(keys, xs, r1),
        sorted_by(keys, xs, r2),
    ensures
        r1 == r2,
{
    let o1 = choose|o: Seq<int>| #[trigger] is_stable_order(keys, o) && r1 == o.map_values(|j: int| xs[j]);
    let o2 = choose|o: Seq<int>| #[trigger] is_stable_order(keys, o) && r2 == o.map_values(|j: int| xs[j]);
    lemma_stable_order_unique(keys, o1, o2);
}

/// Groups sorted by size come largest first: a group never precedes one
/// with more members.
pub proof fn lemma_groups_by_size_descend(gs: Seq<GroupView>, r: Seq<GroupView>, a: int, b: int)
    requires
        sorted_by(size_keys(gs), gs, r),
        0 <= a < b < r.len(),
    ensures
        r[a].1.len() >= r[b].1.len(),
{
    let o = choose|o: Seq<int>| #[trigger] is_stable_order(size_keys(gs), o) && r == o.map_values(|j: int| gs[j]);
    assert(goes_before(size_keys(gs), o[a], o[b]));
    assert(r[a] == gs[o[a]] && r[b] == gs[o[b]]);
}

/// The UTC calendar date of an instant, as `YYYY-MM-DD`, where the
/// instant is representable.
pub uninterp spec fn day_label_of(secs: int) -> Option<Seq<char>>;

pub open spec fn opt_view(o: Option<String>) -> Option<Seq<char>> {
    match o {
        Some(s) => Some(s@),
        None => None,
    }
}

/// Relies on chrono's `DateTime::from_timestamp` (`None` for an instant
/// out of range) and `format("%Y-%m-%d")`: the date depends on the seconds alone.
#[verifier::external_body]
fn day_label(secs: i64) -> (r: Option<String>)
    ensures
        opt_view(r) == day_label_of(secs as int),
{
    DateTime::from_timestamp(secs, 0).map(|d| d.format("%Y-%m-%d").to_string())
}

/// Adds member `r` to the group named `key`, or opens that group.
pub fn add_to_group(groups: &mut Vec<ItemGroup<usize>>, key: &String, r: usize)
    ensures
        groups_view(final(groups)@) == group_step(groups_view(old(groups)@), key@, r),
{
    let ghost gv = groups_view(groups@);
    let mut j: usize = 0;
    while j < groups.len()
        invariant
            j <= groups@.len(),
            gv == groups_view(groups@),
            groups@ == old(groups)@,
            find_from(gv, key@, 0) == find_from(gv, key@, j as int),
        decreases groups@.len() - j,
    {
        if groups[j].name == *key {
            let mut g = groups.remove(j);
            g.list.push(r);
            groups.insert(j, g);
            proof {
                assert(groups_view(groups@) =~= gv.update(j as int, (key@, gv[j as int].1.push(r))));
            }
            return;
        }
        j = j + 1;
    }
    let mut g: ItemGroup<usize> = ItemGroup::new(key.as_str());
    g.list.push(r);
    groups.push(g);
    proof {
        assert(g.list@ =~= seq![r]);
        assert(groups_view(groups@) =~= gv.push((key@, seq![r])));
    }
}

/// Groups the records by tag: one group per distinct tag in order of first
/// appearance, each listing the positions of the records that carry it,
/// once per occurrence of the tag.
pub fn group_by_tag(contents: &Vec<Content>) -> (r: Vec<ItemGroup<usize>>)
    ensures
        groups_view(r@) == tag_groups(tags_of(contents@), contents@.len() as int),
{
    let ghost tv = tags_of(contents@);
    let mut groups: Vec<ItemGroup<usize>> = Vec::new();
    let mut i: usize = 0;
    while i < contents.len()
        invariant
            i <= contents@.len(),
            tv == tags_of(contents@),
            groups_view(groups@) == tag_groups(tv, i as int),
        decreases contents@.len() - i,
    {
        let tags = &contents[i].tags;
        let ghost before = groups_view(groups@);
        let ghost ts = tv[i as int];
        assert(ts == tags@.map_values(|t: String| t@));
        let mut j: usize = 0;
        while j < tags.len()
            invariant
                j <= tags@.len(),
                ts == tags@.map_values(|t: String| t@),
                groups_view(groups@) == add_tags(before, ts, i, j as int),
            decreases tags@.len() - j,
        {
            add_to_group(&mut groups, &tags[j], i);
            j = j + 1;
        }
        i = i + 1;
    }
    groups
}

pub open spec fn labels_view(ls: Seq<Option<String>>) -> Seq<Option<Seq<char>>> {
    ls.map_values(|o: Option<String>| opt_view(o))
}

/// Groups positions by date label, in order of first appearance; a
/// position without a label joins no group.
pub fn group_by_day(labels: &Vec<Option<String>>) -> (r: Vec<ItemGroup<usize>>)
    ensures
        groups_view(r@) == day_groups(labels_view(labels@), labels@.len() as int),
{
    let ghost lv = labels_view(labels@);
    let mut groups: Vec<ItemGroup<usize>> = Vec::new();
    let mut i: usize = 0;
    while i < labels.len()
        invariant
            i <= labels@.len(),
            lv == labels_view(labels@),
            groups_view(groups@) == day_groups(lv, i as int),
        decreases labels@.len() - i,
    {
        assert(lv[i as int] == opt_view(labels@[i as int]));
        match &labels[i] {
            Some(l) => add_to_group(&mut groups, l, i),
            None => {},
        }
        i = i + 1;
    }
    groups
}

/// Sorts records newest first; records created at the same instant keep their order.
pub fn sort_contents(contents: Vec<Content>) -> (r: Vec<Content>)
    ensures
        sorted_by(time_keys(contents@), contents@, r@),
{
    let mut keys: Vec<SortKey> = Vec::new();
    let mut i: usize = 0;
    while i < contents.len()
        invariant
            i <= contents@.len(),
            keys@.len() == i,
            forall|j: int| 0 <= j < i ==> (#[trigger] keys@[j])@ == time_keys(contents@)[j],
        decreases contents@.len() - i,
    {
        let t = contents[i].create_time;
        let rank: i128 = t.secs as i128 * 4294967296i128 + t.nanos as i128;
        keys.push(SortKey { rank, label: Vec::new() });
        i = i + 1;
    }
    let ghost cv = contents@;
    let (sorted, order) = sort_desc(contents, &keys);
    proof {
        assert(crate::order::keys_view(keys@) =~= time_keys(cv));
        assert(is_stable_order(time_keys(cv), order@));
    }
    sorted
}

/// Sorts groups by number of members, largest first; groups of equal size
/// keep their order.
pub fn order_by_size(groups: Vec<ItemGroup<usize>>) -> (r: Vec<ItemGroup<usize>>)
    ensures
        sorted_by(size_keys(groups_view(groups@)), groups_view(groups@), groups_view(r@)),
{
    let ghost gv = groups_view(groups@);
    let mut keys: Vec<SortKey> = Vec::new();
    let mut i: usize = 0;
    while i < groups.len()
        invariant
            i <= groups@.len(),
            gv == groups_view(groups@),
            keys@.len() == i,
            forall|j: int| 0 <= j < i ==> (#[trigger] keys@[j])@ == size_keys(gv)[j],
        decreases groups@.len() - i,
    {
        keys.push(SortKey { rank: groups[i].list.len() as i128, label: Vec::new() });
        i = i + 1;
    }
    let ghost before = groups@;
    let (sorted, order) = sort_desc(groups, &keys);
    proof {
        assert(crate::order::keys_view(keys@) =~= size_keys(gv));
        assert(is_stable_order(size_keys(gv), order@));
        assert(groups_view(sorted@) =~= order@.map_values(|j: int| gv[j]));
    }
    sorted
}

/// Sorts groups by name, greatest first (lexicographic order).
pub fn order_by_name(groups: Vec<ItemGroup<usize>>) -> (r: Vec<ItemGroup<usize>>)
    ensures
        sorted_by(name_keys(groups_view(groups@)), groups_view(groups@), groups_view(r@)),
{
    let ghost gv = groups_view(groups@);
    let mut keys: Vec<SortKey> = Vec::new();
    let mut i: usize = 0;
    while i < groups.len()
        invariant
            i <= groups@.len(),
            gv == groups_view(groups@),
            keys@.len() == i,
            forall|j: int| 0 <= j < i ==> (#[trigger] keys@[j])@ == name_keys(gv)[j],
        decreases groups@.len() - i,
    {
        keys.push(SortKey { rank: 0, label: chars_of(groups[i].name.as_str()) });
        i = i + 1;
    }
    let (sorted, order) = sort_desc(groups, &keys);
    proof {
        assert(crate::order::keys_view(keys@) =~= name_keys(gv));
        assert(is_stable_order(name_keys(gv), order@));
        assert(groups_view(sorted@) =~= order@.map_values(|j: int| gv[j]));
    }
    sorted
}

/// The render model: records newest first, tag groups largest first, and
/// date groups latest label first. Group members are positions in `contents`.
pub struct RenderModel {
    pub contents: Vec<Content>,
    pub tags: Vec<ItemGroup<usize>>,
    pub archives: Vec<ItemGroup<usize>>,
}

pub open spec fn day_labels(cs: Seq<Content>) -> Seq<Option<Seq<char>>> {
    cs.map_values(|c: Content| day_label_of(c.create_time.secs as int))
}

/// Builds the render model from loaded records.
pub fn create_model(contents: Vec<Content>) -> (r: RenderModel)
    ensures
        sorted_by(time_keys(contents@), contents@, r.contents@),
        ({
            let tg = tag_groups(tags_of(r.contents@), r.contents@.len() as int);
            sorted_by(size_keys(tg), tg, groups_view(r.tags@))
        }),
        ({
            let dg = day_groups(day_labels(r.contents@), r.contents@.len() as int);
            sorted_by(name_keys(dg), dg, groups_view(r.archives@))
        }),
{
    let sorted = sort_contents(contents);
    let tags = order_by_size(group_by_tag(&sorted));
    let mut labels: Vec<Option<String>> = Vec::new();
    let mut i: usize = 0;
    while i < sorted.len()
        invariant
            i <= sorted@.len(),
            labels@.len() == i,
            forall|j: int| 0 <= j < i ==> opt_view(#[trigger] labels@[j]) == day_labels(sorted@)[j],
        decreases sorted@.len() - i,
    {
        labels.push(day_label(sorted[i].create_time.secs));
        i = i + 1;
    }
    assert(labels_view(labels@) =~= day_labels(sorted@));
    let archives = order_by_name(group_by_day(&labels));
    RenderModel { contents: sorted, tags, archives }
}

} // verus!
