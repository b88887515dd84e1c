//! Grouping and ordering of hooks and projects before they are installed or run.

use vstd::prelude::*;

verus! {

/// No earlier position holds the key at position `i`.
pub open spec fn first_occurrence(keys: Seq<u64>, i: int) -> bool {
    forall|j: int| 0 <= j < i ==> keys[j] != keys[i]
}

/// The view of a list of groups.
pub open spec fn group_views(groups: Seq<Vec<usize>>) -> Seq<Seq<usize>> {
    groups.map_values(|g: Vec<usize>| g@)
}

/// `groups` lists, for each key among the first `covered` positions, all
/// positions that hold it: each group in increasing order and led by the
/// key's first occurrence, the groups in the order of their leaders.
pub open spec fn key_groups(keys: Seq<u64>, groups: Seq<Seq<usize>>, covered: int) -> bool {
    &&& forall|g: int| 0 <= g < groups.len() ==> #[trigger] groups[g].len() > 0
    &&& forall|g: int, k: int|
        0 <= g < groups.len() && 0 <= k < groups[g].len() ==> #[trigger] groups[g][k] < keys.len()
            && keys[groups[g][k] as int] == keys[groups[g][0] as int]
    &&& forall|g: int, k1: int, k2: int|
        0 <= g < groups.len() && 0 <= k1 < k2 < groups[g].len() ==> #[trigger] groups[g][k1]
            < #[trigger] groups[g][k2]
    &&& forall|g: int|
        0 <= g < groups.len() ==> #[trigger] groups[g][0] < covered && first_occurrence(
            keys,
            groups[g][0] as int,
        )
    &&& forall|g1: int, g2: int|
        0 <= g1 < g2 < groups.len() ==> #[trigger] groups[g1][0] < #[trigger] groups[g2][0]
    &&& forall|g: int, j: int|
        0 <= g < groups.len() && 0 <= j < keys.len() && keys[j] == keys[groups[g][0] as int]
            ==> #[trigger] groups[g].contains(j as usize)
    &&& forall|j: int| 0 <= j < covered ==> #[trigger] in_some_group(groups, j)
}

/// Some group holds position `j`.
pub open spec fn in_some_group(groups: Seq<Seq<usize>>, j: int) -> bool {
    exists|g: int| 0 <= g < groups.len() && #[trigger] groups[g].contains(j as usize)
}

/// Partition hooks into groups where hooks in the same group have same dependencies.
/// Hooks in different groups can be installed in parallel.
///
/// `keys[i]` stands for the dependencies of hook `i`: equal keys for equal
/// dependencies. The result lists the positions of the hooks of each group.
pub fn partition_hooks(keys: &Vec<u64>) -> (r: Vec<Vec<usize>>)
    ensures
        key_groups(keys@, group_views(r@), keys@.len() as int),
{
    let n = keys.len();
    let mut visited: Vec<bool> = Vec::new();
    let mut t: usize = 0;
    while t < n
        invariant
            t <= n,
            visited@.len() == t,
            forall|j: int| 0 <= j < t ==> !visited@[j],
        decreases n - t,
    {
        visited.push(false);
        t = t + 1;
    }
    let mut groups: Vec<Vec<usize>> = Vec::new();
    let mut i: usize = 0;
    while i < n
        invariant
            n == keys@.len(),
            i <= n,
            visited@.len() == n,
            forall|j: int|
                0 <= j < n ==> (#[trigger] visited@[j] <==> exists|k: int|
                    0 <= k < i && keys@[k] == keys@[j]),
            key_groups(keys@, group_views(groups@), i as int),
        decreases n - i,
    {
        if !visited[i] {
            assert(first_occurrence(keys@, i as int)) by {
                assert forall|j: int| 0 <= j < i implies keys@[j] != keys@[i as int] by {
                    if keys@[j] == keys@[i as int] {
                        assert(visited@[i as int]);
                    }
                }
            }
            let ghost old_visited = visited@;
            let mut group: Vec<usize> = Vec::new();
            let mut j: usize = i;
            while j < n
                invariant
                    n == keys@.len(),
                    i < n,
                    i <= j <= n,
                    visited@.len() == n,
                    first_occurrence(keys@, i as int),
                    forall|x: int|
                        0 <= x < n ==> #[trigger] visited@[x] == (old_visited[x] || (i <= x < j
                            && keys@[x] == keys@[i as int])),
                    forall|x: usize| #[trigger]
                        group@.contains(x) <==> (i <= x < j && keys@[x as int] == keys@[i as int]),
                    forall|k1: int, k2: int|
                        0 <= k1 < k2 < group@.len() ==> #[trigger] group@[k1] < #[trigger] group@[k2],
                    forall|k: int| 0 <= k < group@.len() ==> i <= #[trigger] group@[k] < j,
                    j > i ==> group@.len() > 0 && group@[0] == i,
                decreases n - j,
            {
                if keys[j] == keys[i] {
                    let ghost before = group@;
                    visited.set(j, true);
                    group.push(j);
                    assert forall|x: usize| #[trigger]
                        group@.contains(x) <==> (i <= x < j + 1 && keys@[x as int]
                            == keys@[i as int]) by {
                        if group@.contains(x) {
                            let k = choose|k: int| 0 <= k < group@.len() && group@[k] == x;
                            if k < before.len() {
                                assert(before.contains(x));
                            }
                        }
                        if i <= x < j + 1 && keys@[x as int] == keys@[i as int] {
                            if x < j {
                                assert(before.contains(x));
                                let k = choose|k: int| 0 <= k < before.len() && before[k] == x;
                                assert(group@[k] == x);
                            } else {
                                assert(group@[group@.len() - 1] == x);
                            }
                        }
                    }
                } else {
                    assert forall|x: usize| #[trigger]
                        group@.contains(x) <==> (i <= x < j + 1 && keys@[x as int]
                            == keys@[i as int]) by {
                        if group@.contains(x) {
                            let k = choose|k: int| 0 <= k < group@.len() && group@[k] == x;
                        }
                    }
                }
                j = j + 1;
            }
            let ghost before_groups = group_views(groups@);
            assert(group@.contains(i)) by {
                assert(i <= i < n && keys@[i as int] == keys@[i as int]);
            }
            groups.push(group);
            let ghost gs = group_views(groups@);
            assert(gs =~= before_groups.push(group@));
            let ghost last = gs.len() - 1;
            assert forall|g: int| 0 <= g < gs.len() implies #[trigger] gs[g].len() > 0 by {
                if g < last {
                    assert(gs[g] == before_groups[g]);
                }
            }
            assert forall|g: int, k1: int, k2: int|
                0 <= g < gs.len() && 0 <= k1 < k2 < gs[g].len() implies #[trigger] gs[g][k1]
                < #[trigger] gs[g][k2] by {
                if g < last {
                    assert(gs[g] == before_groups[g]);
                }
            }
            assert forall|g: int|
                0 <= g < gs.len() implies #[trigger] gs[g][0] < i + 1 && first_occurrence(
                keys@,
                gs[g][0] as int,
            ) by {
                if g < last {
                    assert(gs[g] == before_groups[g]);
                }
            }
            assert forall|g1: int, g2: int|
                0 <= g1 < g2 < gs.len() implies #[trigger] gs[g1][0] < #[trigger] gs[g2][0] by {
                assert(gs[g1] == before_groups[g1]);
                if g2 < last {
                    assert(gs[g2] == before_groups[g2]);
                }
            }
            assert forall|g: int, k: int|
                0 <= g < gs.len() && 0 <= k < gs[g].len() implies #[trigger] gs[g][k] < keys@.len()
                && keys@[gs[g][k] as int] == keys@[gs[g][0] as int] by {
                if g == last {
                    assert(gs[g] == group@);
                    assert(group@.contains(gs[g][k]));
                    assert(group@.contains(gs[g][0]));
                } else {
                    assert(gs[g] == before_groups[g]);
                }
            }
            assert forall|g: int, x: int|
                0 <= g < gs.len() && 0 <= x < keys@.len() && keys@[x] == keys@[gs[g][0] as int]
                implies #[trigger] gs[g].contains(x as usize) by {
                if g == last {
                    assert(gs[g] == group@);
                    assert(group@.contains(gs[g][0]));
                    assert(keys@[x] == keys@[i as int]);
                    if x < i {
                        assert(keys@[x] != keys@[i as int]);
                    }
                    assert(group@.contains(x as usize));
                } else {
                    assert(gs[g] == before_groups[g]);
                }
            }
            assert forall|x: int| 0 <= x < i + 1 implies #[trigger] in_some_group(gs, x) by {
                if x == i {
                    assert(gs[last].contains(x as usize));
                } else {
                    assert(in_some_group(before_groups, x));
                    let g = choose|g: int| 0 <= g < before_groups.len() && #[trigger] before_groups[g].contains(x as usize);
                    assert(gs[g] == before_groups[g]);
                }
            }
            assert forall|x: int|
                0 <= x < n implies (#[trigger] visited@[x] <==> exists|k: int|
                    0 <= k < i + 1 && keys@[k] == keys@[x]) by {
                if visited@[x] && !old_visited[x] {
                    assert(keys@[i as int] == keys@[x]);
                }
                if exists|k: int| 0 <= k < i + 1 && keys@[k] == keys@[x] {
                    let k = choose|k: int| 0 <= k < i + 1 && keys@[k] == keys@[x];
                    if k < i {
                        assert(old_visited[x]);
                    } else {
                        if x < i {
                            assert(old_visited[x]) by {
                                assert(0 <= x < i && keys@[x] == keys@[x]);
                            }
                        }
                    }
                }
            }
        } else {
            proof {
            let gs = group_views(groups@);
            assert(visited@[i as int]);
            let k = choose|k: int| 0 <= k < i && keys@[k] == keys@[i as int];
            assert(in_some_group(gs, k));
            let g = choose|g: int| 0 <= g < gs.len() && #[trigger] gs[g].contains(k as usize);
            let kk = choose|kk: int| 0 <= kk < gs[g].len() && gs[g][kk] == k as usize;
            assert(keys@[gs[g][kk] as int] == keys@[gs[g][0] as int]);
            assert(keys@[i as int] == keys@[gs[g][0] as int]);
            assert(gs[g].contains((i as int) as usize));
            assert(in_some_group(gs, i as int));
            assert forall|x: int| 0 <= x < n implies (#[trigger] visited@[x] <==> exists|k2: int|
                0 <= k2 < i + 1 && keys@[k2] == keys@[x]) by {
                if exists|k2: int| 0 <= k2 < i + 1 && keys@[k2] == keys@[x] {
                    let k2 = choose|k2: int| 0 <= k2 < i + 1 && keys@[k2] == keys@[x];
                    if k2 == i {
                        assert(0 <= k < i && keys@[k] == keys@[x]);
                    }
                }
            }
            }
        }
        i = i + 1;
    }
    groups
}

/// Hooks in different groups have different dependencies, so no hook lies in
/// two groups.
pub proof fn lemma_groups_disjoint(
    keys: Seq<u64>,
    groups: Seq<Seq<usize>>,
    g1: int,
    g2: int,
    x: usize,
)
    requires
        key_groups(keys, groups, keys.len() as int),
        0 <= g1 < g2 < groups.len(),
    ensures
        keys[groups[g1][0] as int] != keys[groups[g2][0] as int],
        !(groups[g1].contains(x) && groups[g2].contains(x)),
{
    let l1 = groups[g1][0];
    let l2 = groups[g2][0];
    assert(l1 < l2);
    assert(first_occurrence(keys, l2 as int));
    if groups[g1].contains(x) && groups[g2].contains(x) {
        let k1 = choose|k: int| 0 <= k < groups[g1].len() && groups[g1][k] == x;
        let k2 = choose|k: int| 0 <= k < groups[g2].len() && groups[g2][k] == x;
        assert(keys[groups[g1][k1] as int] == keys[l1 as int]);
        assert(keys[groups[g2][k2] as int] == keys[l2 as int]);
    }
}

proof fn lemma_group_no_duplicates(keys: Seq<u64>, groups: Seq<Seq<usize>>, g: int)
    requires
        key_groups(keys, groups, keys.len() as int),
        0 <= g < groups.len(),
    ensures
        groups[g].no_duplicates(),
{
    assert forall|i: int, j: int| 0 <= i < groups[g].len() && 0 <= j < groups[g].len() && i != j implies groups[g][i] != groups[g][j] by {
        if i < j {
            assert(groups[g][i] < groups[g][j]);
        } else {
            assert(groups[g][j] < groups[g][i]);
        }
    }
}

proof fn lemma_flatten_prefix(keys: Seq<u64>, groups: Seq<Seq<usize>>, m: int)
    requires
        key_groups(keys, groups, keys.len() as int),
        0 <= m <= groups.len(),
    ensures
        groups.take(m).flatten().no_duplicates(),
        forall|x: usize|
            #[trigger] groups.take(m).flatten().contains(x) <==> exists|g: int|
                0 <= g < m && groups[g].contains(x),
    decreases m,
{
    if m == 0 {
        assert(groups.take(0) =~= Seq::<Seq<usize>>::empty());
        assert(groups.take(0).flatten() =~= Seq::<usize>::empty());
    } else {
        lemma_flatten_prefix(keys, groups, m - 1);
        let prev = groups.take(m - 1);
        let last = groups[m - 1];
        assert(groups.take(m) =~= prev.push(last));
        prev.lemma_flatten_push(last);
        let a = prev.flatten();
        lemma_group_no_duplicates(keys, groups, m - 1);
        assert forall|i: int, j: int| 0 <= i < a.len() && 0 <= j < last.len() implies a[i] != last[j] by {
            assert(a.contains(a[i]));
            let g = choose|g: int| 0 <= g < m - 1 && groups[g].contains(a[i]);
            assert(last.contains(last[j]));
            if a[i] == last[j] {
                lemma_groups_disjoint(keys, groups, g, m - 1, a[i]);
            }
        }
        vstd::seq_lib::lemma_no_dup_in_concat(a, last);
        assert forall|x: usize| #[trigger] groups.take(m).flatten().contains(x) <==> exists|g: int|
            0 <= g < m && groups[g].contains(x) by {
            let f = groups.take(m).flatten();
            assert(f =~= a + last);
            if f.contains(x) {
                let k = choose|k: int| 0 <= k < f.len() && f[k] == x;
                if k < a.len() {
                    assert(a.contains(x));
                } else {
                    assert(last[k - a.len()] == x);
                    assert(groups[m - 1].contains(x));
                }
            }
            if exists|g: int| 0 <= g < m && groups[g].contains(x) {
                let g = choose|g: int| 0 <= g < m && groups[g].contains(x);
                if g < m - 1 {
                    assert(a.contains(x));
                    let k = choose|k: int| 0 <= k < a.len() && a[k] == x;
                    assert(f[k] == x);
                } else {
                    let k = choose|k: int| 0 <= k < last.len() && last[k] == x;
                    assert(f[a.len() + k] == x);
                }
            }
        }
    }
}

/// Taken together, the groups hold every hook exactly once: as many entries
/// as there are hooks, none repeated.
pub proof fn lemma_groups_cover_each_hook_once(keys: Seq<u64>, groups: Seq<Seq<usize>>)
    requires
        key_groups(keys, groups, keys.len() as int),
        keys.len() <= usize::MAX,
    ensures
        groups.flatten().no_duplicates(),
        groups.flatten().len() == keys.len(),
        forall|x: usize| #[trigger] groups.flatten().contains(x) <==> x < keys.len(),
{
    lemma_flatten_prefix(keys, groups, groups.len() as int);
    assert(groups.take(groups.len() as int) =~= groups);
    let f = groups.flatten();
    assert forall|x: usize| #[trigger] f.contains(x) <==> x < keys.len() by {
        if f.contains(x) {
            let g = choose|g: int| 0 <= g < groups.len() && groups[g].contains(x);
            let k = choose|k: int| 0 <= k < groups[g].len() && groups[g][k] == x;
            assert(groups[g][k] < keys.len());
        }
        if x < keys.len() {
            assert(in_some_group(groups, x as int));
            let g = choose|g: int| 0 <= g < groups.len() && #[trigger] groups[g].contains((x as int) as usize);
            assert(exists|g: int| 0 <= g < groups.len() && groups[g].contains(x));
        }
    }
    f.unique_seq_to_set();
    let n = keys.len() as usize;
    assert(f.to_set() =~= Set::<usize>::range(0usize, n));
    vstd::set_lib::range_set_properties::<usize>(0usize, n);
}

/// Strictly increasing, as positions are listed.
pub open spec fn increasing(s: Seq<usize>) -> bool {
    forall|i: int, j: int| 0 <= i < j < s.len() ==> #[trigger] s[i] < #[trigger] s[j]
}

/// Two strictly increasing lists of the same positions are the same list.
proof fn lemma_increasing_same_elements(a: Seq<usize>, b: Seq<usize>)
    requires
        increasing(a),
        increasing(b),
        forall|x: usize| #![trigger a.contains(x)] #![trigger b.contains(x)] a.contains(x) <==> b.contains(x),
    ensures
        a == b,
    decreases a.len(),
{
    if a.len() == 0 {
        if b.len() > 0 {
            assert(b.contains(b[0]));
        }
        assert(a =~= b);
    } else {
        assert(a.contains(a[0]));
        assert(b.len() > 0);
        assert(b.contains(b[0]));
        let i = choose|i: int| 0 <= i < a.len() && a[i] == b[0];
        let j = choose|j: int| 0 <= j < b.len() && b[j] == a[0];
        if i > 0 {
            assert(a[0] < a[i]);
        }
        if j > 0 {
            assert(b[0] < b[j]);
        }
        assert(a[0] == b[0]);
        let ta = a.drop_first();
        let tb = b.drop_first();
        assert forall|x: usize| #![trigger ta.contains(x)] #![trigger tb.contains(x)] ta.contains(x) <==> tb.contains(x) by {
            if ta.contains(x) {
                let k = choose|k: int| 0 <= k < ta.len() && ta[k] == x;
                assert(a[k + 1] == x && a[0] < a[k + 1]);
                assert(a.contains(x));
                let l = choose|l: int| 0 <= l < b.len() && b[l] == x;
                assert(l != 0);
                assert(tb[l - 1] == x);
            }
            if tb.contains(x) {
                let k = choose|k: int| 0 <= k < tb.len() && tb[k] == x;
                assert(b[k + 1] == x && b[0] < b[k + 1]);
                assert(b.contains(x));
                let l = choose|l: int| 0 <= l < a.len() && a[l] == x;
                assert(l != 0);
                assert(ta[l - 1] == x);
            }
        }
        lemma_increasing_same_elements(ta, tb);
        assert(a =~= seq![a[0]] + ta);
        assert(b =~= seq![b[0]] + tb);
    }
}

/// The leading position of each group.
pub open spec fn leaders(groups: Seq<Seq<usize>>) -> Seq<usize> {
    Seq::new(groups.len(), |g: int| groups[g][0])
}

/// The grouping of hooks by key is determined by the keys: two groupings
/// that both meet `key_groups` for every position are the same grouping.
pub proof fn lemma_key_groups_unique(keys: Seq<u64>, g1: Seq<Seq<usize>>, g2: Seq<Seq<usize>>)
    requires
        key_groups(keys, g1, keys.len() as int),
        key_groups(keys, g2, keys.len() as int),
    ensures
        g1 == g2,
{
    let n = keys.len() as int;
    assert forall|p: usize| #![trigger leaders(g1).contains(p)] #![trigger leaders(g2).contains(p)]
        leaders(g1).contains(p) <==> leaders(g2).contains(p) by {
        lemma_leader_iff_first_occurrence(keys, g1, p);
        lemma_leader_iff_first_occurrence(keys, g2, p);
    }
    assert(increasing(leaders(g1))) by {
        assert forall|i: int, j: int| 0 <= i < j < leaders(g1).len() implies #[trigger] leaders(
            g1,
        )[i] < #[trigger] leaders(g1)[j] by {
            assert(g1[i][0] < g1[j][0]);
        }
    }
    assert(increasing(leaders(g2))) by {
        assert forall|i: int, j: int| 0 <= i < j < leaders(g2).len() implies #[trigger] leaders(
            g2,
        )[i] < #[trigger] leaders(g2)[j] by {
            assert(g2[i][0] < g2[j][0]);
        }
    }
    lemma_increasing_same_elements(leaders(g1), leaders(g2));
    assert(g1.len() == leaders(g1).len());
    assert forall|g: int| 0 <= g < g1.len() implies #[trigger] g1[g] == g2[g] by {
        assert(leaders(g1)[g] == leaders(g2)[g]);
        assert(g1[g][0] == g2[g][0]);
        assert forall|x: usize| #![trigger g1[g].contains(x)] #![trigger g2[g].contains(x)]
            g1[g].contains(x) <==> g2[g].contains(x) by {
            if g1[g].contains(x) {
                let k = choose|k: int| 0 <= k < g1[g].len() && g1[g][k] == x;
                assert(g1[g][k] < keys.len());
                assert(keys[x as int] == keys[g1[g][0] as int]);
                assert(g2[g].contains(((x as int) as usize)));
            }
            if g2[g].contains(x) {
                let k = choose|k: int| 0 <= k < g2[g].len() && g2[g][k] == x;
                assert(g2[g][k] < keys.len());
                assert(keys[x as int] == keys[g2[g][0] as int]);
                assert(g1[g].contains(((x as int) as usize)));
            }
        }
        assert(increasing(g1[g])) by {
            assert forall|i: int, j: int| 0 <= i < j < g1[g].len() implies #[trigger] g1[g][i]
                < #[trigger] g1[g][j] by {}
        }
        assert(increasing(g2[g])) by {
            assert forall|i: int, j: int| 0 <= i < j < g2[g].len() implies #[trigger] g2[g][i]
                < #[trigger] g2[g][j] by {}
        }
        lemma_increasing_same_elements(g1[g], g2[g]);
    }
    assert(g1 =~= g2);
}

/// A position leads a group exactly when it is the first occurrence of its key.
proof fn lemma_leader_iff_first_occurrence(keys: Seq<u64>, groups: Seq<Seq<usize>>, p: usize)
    requires
        key_groups(keys, groups, keys.len() as int),
    ensures
        leaders(groups).contains(p) <==> (p < keys.len() && first_occurrence(keys, p as int)),
{
    if leaders(groups).contains(p) {
        let g = choose|g: int| 0 <= g < leaders(groups).len() && leaders(groups)[g] == p;
        assert(groups[g][0] == p);
    }
    if p < keys.len() && first_occurrence(keys, p as int) {
        assert(in_some_group(groups, p as int));
        let g = choose|g: int| 0 <= g < groups.len() && #[trigger] groups[g].contains(
            (p as int) as usize,
        );
        let k = choose|k: int| 0 <= k < groups[g].len() && groups[g][k] == p;
        let leader = groups[g][0];
        assert(groups[g].len() > 0);
        assert(keys[p as int] == keys[leader as int]);
        assert(first_occurrence(keys, leader as int));
        if leader < p {
            assert(keys[leader as int] != keys[p as int]);
        } else if p < leader {
            assert(keys[p as int] != keys[leader as int]);
        }
        assert(leaders(groups)[g] == p);
    }
}

/// Position `a` comes before position `b` when ordered by key, ties broken by position.
pub open spec fn key_before(keys: Seq<usize>, a: usize, b: usize) -> bool {
    keys[a as int] < keys[b as int] || (keys[a as int] == keys[b as int] && a < b)
}

/// `order` lists the first `n` positions, ordered by key and, among equal
/// keys, by position: the order a stable sort by key gives.
pub open spec fn stably_sorted(keys: Seq<usize>, order: Seq<usize>, n: int) -> bool {
    &&& order.len() == n
    &&& forall|k: int| 0 <= k < order.len() ==> #[trigger] order[k] < n
    &&& forall|k1: int, k2: int|
        0 <= k1 < k2 < order.len() ==> key_before(keys, #[trigger] order[k1], #[trigger] order[k2])
}

/// The positions of `keys` in the order a stable sort by key puts them.
pub fn stable_order(keys: &Vec<usize>) -> (r: Vec<usize>)
    ensures
        stably_sorted(keys@, r@, keys@.len() as int),
{
    let n = keys.len();
    let mut r: Vec<usize> = Vec::new();
    let mut i: usize = 0;
    while i < n
        invariant
            n == keys@.len(),
            i <= n,
            stably_sorted(keys@, r@, i as int),
        decreases n - i,
    {
        let mut pos: usize = 0;
        while pos < r.len() && keys[r[pos]] <= keys[i]
            invariant
                n == keys@.len(),
                i < n,
                stably_sorted(keys@, r@, i as int),
                pos <= r@.len(),
                forall|k: int| 0 <= k < pos ==> keys@[#[trigger] r@[k] as int] <= keys@[i as int],
            decreases r.len() - pos,
        {
            pos = pos + 1;
        }
        let ghost before = r@;
        r.insert(pos, i);
        assert forall|k1: int, k2: int|
            0 <= k1 < k2 < r@.len() implies key_before(keys@, #[trigger] r@[k1], #[trigger] r@[k2]) by {
            if k1 < pos && k2 < pos {
                assert(r@[k1] == before[k1] && r@[k2] == before[k2]);
            } else if k1 < pos && k2 == pos {
                assert(r@[k1] == before[k1]);
            } else if k1 < pos {
                assert(r@[k1] == before[k1] && r@[k2] == before[k2 - 1]);
            } else if k1 == pos {
                assert(r@[k2] == before[k2 - 1]);
                assert(pos < before.len());
                assert(keys@[before[pos as int] as int] > keys@[i as int]);
                if k2 - 1 > pos {
                    assert(key_before(keys@, before[pos as int], before[k2 - 1]));
                }
            } else {
                assert(r@[k1] == before[k1 - 1] && r@[k2] == before[k2 - 1]);
            }
        }
        assert forall|k: int| 0 <= k < r@.len() implies #[trigger] r@[k] < i + 1 by {
            if k < pos {
                assert(r@[k] == before[k]);
            } else if k > pos {
                assert(r@[k] == before[k - 1]);
            }
        }
        i = i + 1;
    }
    r
}

/// A stably sorted order lists each position below `n` exactly once.
proof fn lemma_stably_sorted_is_permutation(keys: Seq<usize>, order: Seq<usize>, n: int)
    requires
        stably_sorted(keys, order, n),
        n <= usize::MAX,
    ensures
        order.no_duplicates(),
        forall|p: usize| p < n ==> #[trigger] order.contains(p),
{
    assert forall|i: int, j: int|
        0 <= i < order.len() && 0 <= j < order.len() && i != j implies order[i] != order[j] by {
        if i < j {
            assert(key_before(keys, order[i], order[j]));
        } else {
            assert(key_before(keys, order[j], order[i]));
        }
    }
    order.unique_seq_to_set();
    let m = n as usize;
    let range = Set::<usize>::range(0usize, m);
    vstd::set_lib::range_set_properties::<usize>(0usize, m);
    assert forall|x: usize| order.to_set().contains(x) implies range.contains(x) by {
        let k = choose|k: int| 0 <= k < order.len() && order[k] == x;
        assert(order[k] < n);
    }
    vstd::seq_lib::seq_to_set_is_finite(order);
    vstd::set_lib::lemma_subset_equality(order.to_set(), range);
    assert forall|p: usize| p < n implies #[trigger] order.contains(p) by {
        assert(range.contains(p));
        assert(order.to_set().contains(p));
    }
}

proof fn lemma_stably_sorted_prefix_agree(
    keys: Seq<usize>,
    a: Seq<usize>,
    b: Seq<usize>,
    n: int,
    k: int,
)
    requires
        stably_sorted(keys, a, n),
        stably_sorted(keys, b, n),
        a.no_duplicates(),
        b.no_duplicates(),
        forall|p: usize| p < n ==> #[trigger] a.contains(p),
        forall|p: usize| p < n ==> #[trigger] b.contains(p),
        0 <= k <= n,
    ensures
        forall|j: int| 0 <= j < k ==> a[j] == b[j],
    decreases k,
{
    if k > 0 {
        lemma_stably_sorted_prefix_agree(keys, a, b, n, k - 1);
        let i = k - 1;
        let x = b[i];
        let y = a[i];
        assert(a.contains(x));
        assert(b.contains(y));
        let m = choose|m: int| 0 <= m < a.len() && a[m] == x;
        let m2 = choose|m2: int| 0 <= m2 < b.len() && b[m2] == y;
        if x != y {
            if m < i {
                assert(b[m] == x);
            } else if m2 < i {
                assert(a[m2] == y);
            } else {
                assert(m > i && m2 > i);
                assert(key_before(keys, a[i], a[m]));
                assert(key_before(keys, b[i], b[m2]));
            }
        }
    }
}

/// Two orders of the first `n` positions that are both stably sorted by the
/// same keys are the same order: a stable sort by key has one outcome.
pub proof fn lemma_stable_order_unique(keys: Seq<usize>, a: Seq<usize>, b: Seq<usize>, n: int)
    requires
        stably_sorted(keys, a, n),
        stably_sorted(keys, b, n),
        n <= usize::MAX,
    ensures
        a == b,
{
    lemma_stably_sorted_is_permutation(keys, a, n);
    lemma_stably_sorted_is_permutation(keys, b, n);
    lemma_stably_sorted_prefix_agree(keys, a, b, n, n);
    assert(a =~= b);
}

/// `groups` cuts `order` into runs of consecutive positions of equal depth:
/// every run non-empty, a run's depths all equal, neighbouring runs of
/// different depth.
pub open spec fn depth_runs(depths: Seq<usize>, order: Seq<usize>, groups: Seq<Seq<usize>>) -> bool {
    &&& groups.flatten() == order
    &&& forall|g: int| 0 <= g < groups.len() ==> #[trigger] groups[g].len() > 0
    &&& forall|g: int, k: int|
        0 <= g < groups.len() && 0 <= k < groups[g].len() ==> depths[#[trigger] groups[g][k] as int]
            == depths[groups[g][0] as int]
    &&& forall|g: int|
        0 <= g < groups.len() - 1 ==> depths[#[trigger] groups[g][0] as int] != depths[groups[g
            + 1][0] as int]
}

/// The runs of equal depth are determined by the order they cut: two
/// groupings of one order into runs are the same grouping.
pub proof fn lemma_depth_runs_unique(
    depths: Seq<usize>,
    order: Seq<usize>,
    g1: Seq<Seq<usize>>,
    g2: Seq<Seq<usize>>,
)
    requires
        depth_runs(depths, order, g1),
        depth_runs(depths, order, g2),
    ensures
        g1 == g2,
    decreases g1.len(),
{
    if g1.len() == 0 {
        if g2.len() > 0 {
            assert(g2[0].len() > 0);
            assert(g2.flatten() == g2.first() + g2.drop_first().flatten());
        }
        assert(g1 =~= g2);
    } else {
        assert(g1[0].len() > 0);
        assert(g1.flatten() == g1.first() + g1.drop_first().flatten());
        if g2.len() == 0 {
            assert(g2.flatten().len() == 0);
        }
        assert(g2[0].len() > 0);
        assert(g2.flatten() == g2.first() + g2.drop_first().flatten());
        let l1 = g1[0].len() as int;
        let l2 = g2[0].len() as int;
        let rest1 = g1.drop_first();
        let rest2 = g2.drop_first();
        assert(order[0] == g1[0][0] && order[0] == g2[0][0]);
        if l1 < l2 {
            lemma_next_run_starts_after_first(depths, order, g1);
            assert(order[l1] == g2[0][l1]);
            assert(depths[g2[0][l1] as int] == depths[g2[0][0] as int]);
        } else if l2 < l1 {
            lemma_next_run_starts_after_first(depths, order, g2);
            assert(order[l2] == g1[0][l2]);
            assert(depths[g1[0][l2] as int] == depths[g1[0][0] as int]);
        }
        assert(l1 == l2);
        assert(g1[0] =~= order.take(l1));
        assert(g2[0] =~= order.take(l2));
        let tail = order.skip(l1);
        assert(rest1.flatten() =~= tail);
        assert(rest2.flatten() =~= tail);
        lemma_runs_drop_first(depths, order, g1);
        lemma_runs_drop_first(depths, order, g2);
        lemma_depth_runs_unique(depths, tail, rest1, rest2);
        assert(g1 =~= seq![g1[0]] + rest1);
        assert(g2 =~= seq![g2[0]] + rest2);
    }
}

proof fn lemma_next_run_starts_after_first(depths: Seq<usize>, order: Seq<usize>, g: Seq<Seq<usize>>)
    requires
        depth_runs(depths, order, g),
        g.len() > 0,
        order.len() > g[0].len(),
    ensures
        g.len() > 1,
        order[g[0].len() as int] == g[1][0],
        depths[order[g[0].len() as int] as int] != depths[g[0][0] as int],
{
    assert(g.flatten() == g.first() + g.drop_first().flatten());
    let rest = g.drop_first();
    if rest.len() == 0 {
        assert(rest.flatten().len() == 0);
    }
    assert(rest[0] == g[1]);
    assert(g[1].len() > 0);
    assert(rest.flatten() == rest.first() + rest.drop_first().flatten());
    assert(order[g[0].len() as int] == rest.flatten()[0]);
}

proof fn lemma_runs_drop_first(depths: Seq<usize>, order: Seq<usize>, g: Seq<Seq<usize>>)
    requires
        depth_runs(depths, order, g),
        g.len() > 0,
    ensures
        depth_runs(depths, g.drop_first().flatten(), g.drop_first()),
{
    let rest = g.drop_first();
    assert forall|i: int| 0 <= i < rest.len() implies #[trigger] rest[i].len() > 0 by {
        assert(rest[i] == g[i + 1]);
    }
    assert forall|i: int, k: int| 0 <= i < rest.len() && 0 <= k < rest[i].len() implies depths[
        #[trigger] rest[i][k] as int] == depths[rest[i][0] as int] by {
        assert(rest[i] == g[i + 1]);
    }
    assert forall|i: int| 0 <= i < rest.len() - 1 implies depths[#[trigger] rest[i][0] as int]
        != depths[rest[i + 1][0] as int] by {
        assert(rest[i] == g[i + 1]);
        assert(rest[i + 1] == g[i + 2]);
    }
}

/// The groups of projects are determined by the projects' indices and
/// depths: two plans that both order the projects stably by index and cut
/// that order into runs of equal depth are the same plan.
pub proof fn lemma_project_plan_unique(
    idx: Seq<usize>,
    depth: Seq<usize>,
    g1: Seq<Seq<usize>>,
    g2: Seq<Seq<usize>>,
)
    requires
        idx.len() <= usize::MAX,
        stably_sorted(idx, g1.flatten(), idx.len() as int),
        depth_runs(depth, g1.flatten(), g1),
        stably_sorted(idx, g2.flatten(), idx.len() as int),
        depth_runs(depth, g2.flatten(), g2),
    ensures
        g1 == g2,
{
    lemma_stable_order_unique(idx, g1.flatten(), g2.flatten(), idx.len() as int);
    lemma_depth_runs_unique(depth, g1.flatten(), g1, g2);
}

/// Orders projects by their index and gathers the ones of equal depth that
/// follow each other into groups, which may run side by side.
pub fn plan_project_groups(idx: &Vec<usize>, depth: &Vec<usize>) -> (r: Vec<Vec<usize>>)
    requires
        idx@.len() == depth@.len(),
    ensures
        stably_sorted(idx@, group_views(r@).flatten(), idx@.len() as int),
        depth_runs(depth@, group_views(r@).flatten(), group_views(r@)),
{
    let order = stable_order(idx);
    let mut groups: Vec<Vec<usize>> = Vec::new();
    let mut k: usize = 0;
    assert(group_views(groups@) =~= Seq::<Seq<usize>>::empty());
    assert(order@.take(0) =~= Seq::<usize>::empty());
    while k < order.len()
        invariant
            stably_sorted(idx@, order@, idx@.len() as int),
            idx@.len() == depth@.len(),
            k <= order@.len(),
            depth_runs(depth@, order@.take(k as int), group_views(groups@)),
            k > 0 ==> groups@.len() > 0,
            k > 0 ==> depth@[groups@.last()@[0] as int] == depth@[order@[k - 1] as int],
            forall|g: int, j: int|
                0 <= g < groups@.len() && 0 <= j < groups@[g]@.len() ==> #[trigger] groups@[g]@[j]
                    < depth@.len(),
        decreases order.len() - k,
    {
        let p = order[k];
        let ghost before = group_views(groups@);
        let extend = if groups.len() > 0 {
            let last = groups.len() - 1;
            assert(before[last as int].len() > 0);
            assert(groups@[last as int]@.len() > 0);
            assert(groups@[last as int]@[0] < depth@.len());
            depth[groups[last][0]] == depth[p]
        } else {
            false
        };
        if extend {
            let last = groups.len() - 1;
            let mut group = groups.pop().unwrap();
            let ghost old_group = group@;
            group.push(p);
            groups.push(group);
            proof {
                let gs = group_views(groups@);
                assert(gs =~= before.drop_last().push(old_group.push(p)));
                assert(before.drop_last().push(old_group) =~= before);
                lemma_flatten_push_extend(before.drop_last(), old_group, p);
                assert(order@.take(k + 1) =~= order@.take(k as int).push(p));
                assert forall|g: int, j: int|
                    0 <= g < gs.len() && 0 <= j < gs[g].len() implies depth@[#[trigger] gs[g][j]
                    as int] == depth@[gs[g][0] as int] by {
                    if g < last {
                        assert(gs[g] == before[g]);
                    } else if j < old_group.len() {
                        assert(gs[g][j] == before[g][j]);
                        assert(gs[g][0] == before[g][0]);
                    } else {
                        assert(gs[g][0] == before[g][0]);
                    }
                }
                assert forall|g: int| 0 <= g < gs.len() - 1 implies depth@[#[trigger] gs[g][0] as int]
                    != depth@[gs[g + 1][0] as int] by {
                    assert(gs[g] == before[g]);
                    assert(gs[g + 1][0] == before[g + 1][0]);
                }
                assert forall|g: int| 0 <= g < gs.len() implies #[trigger] gs[g].len() > 0 by {
                    if g < last {
                        assert(gs[g] == before[g]);
                    }
                }
            }
        } else {
            let mut group: Vec<usize> = Vec::new();
            group.push(p);
            groups.push(group);
            proof {
                let gs = group_views(groups@);
                assert(gs =~= before.push(seq![p]));
                lemma_flatten_push_group(before, seq![p]);
                assert(order@.take(k + 1) =~= order@.take(k as int).push(p));
                assert(order@.take(k as int) + seq![p] =~= order@.take(k as int).push(p));
                assert forall|g: int, j: int|
                    0 <= g < gs.len() && 0 <= j < gs[g].len() implies depth@[#[trigger] gs[g][j]
                    as int] == depth@[gs[g][0] as int] by {
                    if g < before.len() {
                        assert(gs[g] == before[g]);
                    }
                }
                assert forall|g: int| 0 <= g < gs.len() - 1 implies depth@[#[trigger] gs[g][0] as int]
                    != depth@[gs[g + 1][0] as int] by {
                    assert(gs[g] == before[g]);
                    if g + 1 < before.len() {
                        assert(gs[g + 1] == before[g + 1]);
                    }
                }
                assert forall|g: int| 0 <= g < gs.len() implies #[trigger] gs[g].len() > 0 by {
                    if g < before.len() {
                        assert(gs[g] == before[g]);
                    }
                }
            }
        }
        k = k + 1;
    }
    assert(order@.take(order@.len() as int) =~= order@);
    groups
}

proof fn lemma_flatten_push_group(groups: Seq<Seq<usize>>, g: Seq<usize>)
    ensures
        groups.push(g).flatten() == groups.flatten() + g,
{
    groups.lemma_flatten_push(g);
}

proof fn lemma_flatten_push_extend(groups: Seq<Seq<usize>>, g: Seq<usize>, p: usize)
    ensures
        groups.push(g.push(p)).flatten() == groups.push(g).flatten().push(p),
{
    groups.lemma_flatten_push(g.push(p));
    groups.lemma_flatten_push(g);
    assert(groups.flatten() + g.push(p) =~= (groups.flatten() + g).push(p));
}

} // verus!
