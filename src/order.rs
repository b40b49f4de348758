//! Stable descending sort by a key made of a rank and a label.
use vstd::prelude::*;

verus! {

/// A sort key: a rank, compared first, then a label compared lexicographically.
pub struct SortKey {
    pub rank: i128,
    pub label: Vec<char>,
}

impl View for SortKey {
    type V = (int, Seq<char>);

    open spec fn view(&self) -> (int, Seq<char>) {
        (self.rank as int, self.label@)
    }
}

pub open spec fn keys_view(ks: Seq<SortKey>) -> Seq<(int, Seq<char>)> {
    ks.map_values(|k: SortKey| k@)
}

/// `a` comes after `b` in lexicographic order of code points.
pub open spec fn seq_gt(a: Seq<char>, b: Seq<char>) -> bool
    decreases a.len(),
{
    if a.len() == 0 {
        false
    } else if b.len() == 0 {
        true
    } else if a[0] != b[0] {
        (a[0] as int) > (b[0] as int)
    } else {
        seq_gt(a.drop_first(), b.drop_first())
    }
}

/// `a` is a greater key than `b`.
pub open spec fn key_gt(a: (int, Seq<char>), b: (int, Seq<char>)) -> bool {
    a.0 > b.0 || (a.0 == b.0 && seq_gt(a.1, b.1))
}

/// Position `i` goes before position `j`: a greater key first, and among
/// equal keys the earlier position first.
pub open spec fn goes_before(keys: Seq<(int, Seq<char>)>, i: int, j: int) -> bool {
    key_gt(keys[i], keys[j]) || (keys[i] == keys[j] && i < j)
}

/// `order` lists every position of `keys` once, greatest key first and
/// equal keys in the order they were given.
pub open spec fn is_stable_order(keys: Seq<(int, Seq<char>)>, order: Seq<int>) -> bool {
    &&& order.len() == keys.len()
    &&& forall|a: int| 0 <= a < order.len() ==> 0 <= #[trigger] order[a] < keys.len()
    &&& forall|a: int, b: int| 0 <= a < b < order.len() ==> order[a] != order[b]
    &&& forall|a: int, b: int|
        0 <= a < b < order.len() ==> goes_before(keys, #[trigger] order[a], #[trigger] order[b])
}

pub proof fn lemma_seq_gt_irreflexive(a: Seq<char>)
    ensures
        !seq_gt(a, a),
    decreases a.len(),
{
    if a.len() > 0 {
        lemma_seq_gt_irreflexive(a.drop_first());
    }
}

pub proof fn lemma_seq_gt_asymmetric(a: Seq<char>, b: Seq<char>)
    ensures
        seq_gt(a, b) ==> !seq_gt(b, a),
    decreases a.len(),
{
    if a.len() > 0 && b.len() > 0 && a[0] == b[0] {
        lemma_seq_gt_asymmetric(a.drop_first(), b.drop_first());
    }
}

pub proof fn lemma_seq_gt_transitive(a: Seq<char>, b: Seq<char>, c: Seq<char>)
    ensures
        seq_gt(a, b) && seq_gt(b, c) ==> seq_gt(a, c),
    decreases a.len(),
{
    if a.len() > 0 && b.len() > 0 && c.len() > 0 {
        lemma_seq_gt_transitive(a.drop_first(), b.drop_first(), c.drop_first());
    }
}

pub proof fn lemma_seq_gt_total(a: Seq<char>, b: Seq<char>)
    ensures
        a != b ==> seq_gt(a, b) || seq_gt(b, a),
    decreases a.len(),
{
    if a.len() > 0 && b.len() > 0 && a[0] == b[0] {
        lemma_seq_gt_total(a.drop_first(), b.drop_first());
        if a.drop_first() == b.drop_first() {
            assert(a =~= seq![a[0]] + a.drop_first());
            assert(b =~= seq![b[0]] + b.drop_first());
        }
    } else if a.len() == 0 && b.len() == 0 {
        assert(a =~= b);
    }
}

proof fn lemma_key_facts(a: (int, Seq<char>), b: (int, Seq<char>), c: (int, Seq<char>))
    ensures
        !key_gt(a, a),
        key_gt(a, b) ==> !key_gt(b, a),
        key_gt(a, b) && key_gt(b, c) ==> key_gt(a, c),
        a != b ==> key_gt(a, b) || key_gt(b, a),
{
    lemma_seq_gt_irreflexive(a.1);
    lemma_seq_gt_asymmetric(a.1, b.1);
    lemma_seq_gt_transitive(a.1, b.1, c.1);
    lemma_seq_gt_total(a.1, b.1);
}

proof fn lemma_order_covers(keys: Seq<(int, Seq<char>)>, o: Seq<int>, x: int)
    requires
        is_stable_order(keys, o),
        0 <= x < keys.len(),
    ensures
        exists|a: int| 0 <= a < o.len() && o[a] == x,
{
    let n = keys.len() as int;
    assert(o.no_duplicates()) by {
        assert forall|a: int, b: int| 0 <= a < o.len() && 0 <= b < o.len() && a != b implies o[a]
            != o[b] by {
            if a > b {
                assert(o[b] != o[a]);
            }
        }
    }
    o.unique_seq_to_set();
    vstd::set_lib::lemma_int_range(0, n);
    let r = vstd::set_lib::set_int_range(0, n);
    assert(o.to_set().subset_of(r));
    vstd::set_lib::lemma_len_subset(o.to_set(), r);
    vstd::set_lib::lemma_subset_equality(o.to_set(), r);
    assert(r.contains(x));
    assert(o.to_set().contains(x));
}

proof fn lemma_orders_agree_below(keys: Seq<(int, Seq<char>)>, o1: Seq<int>, o2: Seq<int>, k: int)
    requires
        is_stable_order(keys, o1),
        is_stable_order(keys, o2),
        0 <= k <= o1.len(),
    ensures
        forall|a: int| 0 <= a < k ==> o1[a] == o2[a],
    decreases k,
{
    if k > 0 {
        let a = k - 1;
        lemma_orders_agree_below(keys, o1, o2, a);
        let x = o1[a];
        let y = o2[a];
        if x != y {
            lemma_order_covers(keys, o1, y);
            let b = choose|b: int| 0 <= b < o1.len() && o1[b] == y;
            lemma_order_covers(keys, o2, x);
            let c = choose|c: int| 0 <= c < o2.len() && o2[c] == x;
            if b < a {
                assert(o2[b] == y);
            }
            if c < a {
                assert(o1[c] == x);
            }
            assert(b > a && c > a);
            assert(goes_before(keys, x, y));
            assert(goes_before(keys, y, x));
            lemma_key_facts(keys[x], keys[y], keys[x]);
        }
    }
}

/// A stable descending order of given keys is unique: any two agree.
pub proof fn lemma_stable_order_unique(keys: Seq<(int, Seq<char>)>, o1: Seq<int>, o2: Seq<int>)
    requires
        is_stable_order(keys, o1),
        is_stable_order(keys, o2),
    ensures
        o1 == o2,
{
    lemma_orders_agree_below(keys, o1, o2, o1.len() as int);
    assert(o1 =~= o2);
}

/// Whether `a` is a greater label than `b`.
pub fn label_gt(a: &Vec<char>, b: &Vec<char>) -> (r: bool)
    ensures
        r == seq_gt(a@, b@),
{
    let mut i: usize = 0;
    assert(a@.subrange(0, a@.len() as int) =~= a@);
    assert(b@.subrange(0, b@.len() as int) =~= b@);
    while i < a.len() && i < b.len()
        invariant
            i <= a@.len(),
            i <= b@.len(),
            seq_gt(a@, b@) == seq_gt(a@.subrange(i as int, a@.len() as int), b@.subrange(i as int, b@.len() as int)),
        decreases a@.len() - i,
    {
        let x = a[i];
        let y = b[i];
        proof {
            let sa = a@.subrange(i as int, a@.len() as int);
            let sb = b@.subrange(i as int, b@.len() as int);
            assert(sa.drop_first() =~= a@.subrange(i + 1, a@.len() as int));
            assert(sb.drop_first() =~= b@.subrange(i + 1, b@.len() as int));
        }
        if x != y {
            return x > y;
        }
        i = i + 1;
    }
    i < a.len()
}

/// Whether key `a` is greater than key `b`.
pub fn key_greater(a: &SortKey, b: &SortKey) -> (r: bool)
    ensures
        r == key_gt(a@, b@),
{
    if a.rank != b.rank {
        a.rank > b.rank
    } else {
        label_gt(&a.label, &b.label)
    }
}

/// Sorts `items` by their keys, greatest first, equal keys keeping their order.
/// The result lists `items` in the positions of `order`.
pub fn sort_desc<T>(items: Vec<T>, keys: &Vec<SortKey>) -> (r: (Vec<T>, Ghost<Seq<int>>))
    requires
        items@.len() == keys@.len(),
    ensures
        is_stable_order(keys_view(keys@), r.1@),
        r.0@ == r.1@.map_values(|j: int| items@[j]),
{
    let ghost kv = keys_view(keys@);
    let ghost n = items@.len();
    let total = keys.len();
    let mut rest = items;
    let mut out: Vec<T> = Vec::new();
    let mut out_keys: Vec<usize> = Vec::new();
    let mut i: usize = 0;
    while rest.len() > 0
        invariant
            kv == keys_view(keys@),
            n == items@.len(),
            n == keys@.len(),
            n == total,
            i + rest@.len() == n,
            rest@ == items@.subrange(i as int, n as int),
            out@.len() == i,
            out_keys@.len() == i,
            forall|a: int| 0 <= a < i ==> 0 <= #[trigger] out_keys@[a] < i,
            forall|a: int, b: int| 0 <= a < b < i ==> out_keys@[a] != out_keys@[b],
            forall|a: int, b: int|
                0 <= a < b < i ==> goes_before(kv, #[trigger] out_keys@[a] as int, #[trigger] out_keys@[b] as int),
            forall|a: int| 0 <= a < i ==> #[trigger] out@[a] == items@[out_keys@[a] as int],
        decreases rest@.len(),
    {
        let item = rest.remove(0);
        let k = &keys[i];
        // first position whose key is smaller than the new one
        let mut p: usize = 0;
        while p < out_keys.len() && !key_greater(k, &keys[out_keys[p]])
            invariant
                kv == keys_view(keys@),
                n == keys@.len(),
                i < n,
                k == keys@[i as int],
                out_keys@.len() == i,
                p <= i,
                forall|a: int| 0 <= a < i ==> 0 <= #[trigger] out_keys@[a] < i,
                forall|a: int| 0 <= a < p ==> !key_gt(kv[i as int], #[trigger] kv[out_keys@[a] as int]),
            decreases i - p,
        {
            p = p + 1;
        }
        proof {
            assert forall|a: int| 0 <= a < p implies goes_before(kv, #[trigger] out_keys@[a] as int, i as int) by {
                lemma_key_facts(kv[out_keys@[a] as int], kv[i as int], kv[i as int]);
            }
            if p < i {
                assert forall|a: int| p <= a < i implies key_gt(kv[i as int], #[trigger] kv[out_keys@[a] as int]) by {
                    if a > p {
                        let x = out_keys@[p as int] as int;
                        let y = out_keys@[a] as int;
                        assert(goes_before(kv, x, y));
                        lemma_key_facts(kv[i as int], kv[x], kv[y]);
                    }
                }
            }
        }
        let ghost old_keys = out_keys@;
        let ghost old_out = out@;
        out.insert(p, item);
        out_keys.insert(p, i);
        proof {
            assert forall|a: int, b: int| 0 <= a < b < i + 1 implies goes_before(kv, #[trigger] out_keys@[a] as int, #[trigger] out_keys@[b] as int) by {
                if b < p {
                    assert(out_keys@[a] == old_keys[a] && out_keys@[b] == old_keys[b]);
                } else if b == p {
                    assert(out_keys@[a] == old_keys[a]);
                } else if a == p {
                    assert(out_keys@[b] == old_keys[b - 1]);
                    assert(key_gt(kv[i as int], kv[old_keys[b - 1] as int]));
                } else if a < p {
                    assert(out_keys@[a] == old_keys[a] && out_keys@[b] == old_keys[b - 1]);
                } else {
                    assert(out_keys@[a] == old_keys[a - 1] && out_keys@[b] == old_keys[b - 1]);
                }
            }
            assert forall|a: int| 0 <= a < i + 1 implies #[trigger] out@[a] == items@[out_keys@[a] as int] by {
                if a < p {
                    assert(out@[a] == old_out[a]);
                } else if a > p {
                    assert(out@[a] == old_out[a - 1]);
                }
            }
            assert(rest@ =~= items@.subrange(i + 1, n as int));
        }
        i = i + 1;
    }
    let ghost order = out_keys@.map_values(|j: usize| j as int);
    assert(out@ =~= order.map_values(|j: int| items@[j]));
    (out, Ghost(order))
}

} // verus!
