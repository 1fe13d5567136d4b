use vstd::prelude::*;

verus! {

/// One row of a process snapshot: a process id and the id of its parent,
/// when it has one.
pub type ProcessRow = (u32, Option<u32>);

/// No process id occurs twice in the snapshot (it is keyed by process id).
pub open spec fn pids_unique(table: Seq<ProcessRow>) -> bool {
    forall|a: int, b: int|
        0 <= a < table.len() && 0 <= b < table.len() && a != b ==> table[a].0 != table[b].0
}

/// `c` is listed as a child of `p`.
pub open spec fn is_child(table: Seq<ProcessRow>, c: u32, p: u32) -> bool {
    exists|x: int| 0 <= x < table.len() && table[x].0 == c && table[x].1 == Some(p)
}

/// The children of `p`, in the order of the snapshot.
pub open spec fn children_of(table: Seq<ProcessRow>, p: u32) -> Seq<u32>
    decreases table.len(),
{
    if table.len() == 0 {
        Seq::empty()
    } else {
        let rest = children_of(table.drop_last(), p);
        if table.last().1 == Some(p) {
            rest.push(table.last().0)
        } else {
            rest
        }
    }
}

/// The children of every process of `ps`, one group after the other.
pub open spec fn children_of_all(table: Seq<ProcessRow>, ps: Seq<u32>) -> Seq<u32> {
    ps.map_values(|p: u32| children_of(table, p)).flatten()
}

/// The `k`-th step of `chain` goes from a parent to one of its children.
pub open spec fn linked(table: Seq<ProcessRow>, chain: Seq<u32>, k: int) -> bool {
    is_child(table, chain[k + 1], chain[k])
}

/// Each process of `chain` after the first is a child of the one before.
pub open spec fn is_chain(table: Seq<ProcessRow>, chain: Seq<u32>) -> bool {
    forall|k: int| 0 <= k < chain.len() - 1 ==> #[trigger] linked(table, chain, k)
}

/// `p` is `root` or one of its descendants.
pub open spec fn reaches(table: Seq<ProcessRow>, root: u32, p: u32) -> bool {
    exists|chain: Seq<u32>|
        chain.len() >= 1 && chain[0] == root && chain.last() == p && is_chain(table, chain)
}

/// `root` is its own descendant: following parent links from one of its
/// descendants leads back to it. Collecting the tree below such a process
/// never ends.
pub open spec fn on_parent_cycle(table: Seq<ProcessRow>, root: u32) -> bool {
    exists|chain: Seq<u32>|
        chain.len() >= 2 && chain[0] == root && chain.last() == root && is_chain(table, chain)
}

/// The process at position `j` of `s` has its parent at an earlier
/// position.
pub open spec fn parent_listed_before(table: Seq<ProcessRow>, s: Seq<u32>, j: int) -> bool {
    exists|k: int| 0 <= k < j && is_child(table, s[j], s[k])
}

proof fn lemma_children_step(table: Seq<ProcessRow>, p: u32, x: int)
    requires
        0 <= x < table.len(),
    ensures
        children_of(table.take(x + 1), p) == (if table[x].1 == Some(p) {
            children_of(table.take(x), p).push(table[x].0)
        } else {
            children_of(table.take(x), p)
        }),
{
    assert(table.take(x + 1).drop_last() =~= table.take(x));
}

proof fn lemma_children_all_step(table: Seq<ProcessRow>, ps: Seq<u32>, i: int)
    requires
        0 <= i < ps.len(),
    ensures
        children_of_all(table, ps.take(i + 1)) == children_of_all(table, ps.take(i)) + children_of(
            table,
            ps[i],
        ),
{
    let f = |p: u32| children_of(table, p);
    assert(ps.take(i + 1).map_values(f) =~= ps.take(i).map_values(f).push(f(ps[i])));
    ps.take(i).map_values(f).lemma_flatten_push(f(ps[i]));
}

proof fn lemma_chain_extend(table: Seq<ProcessRow>, chain: Seq<u32>, c: u32)
    requires
        chain.len() >= 1,
        is_chain(table, chain),
        is_child(table, c, chain.last()),
    ensures
        is_chain(table, chain.push(c)),
{
    let ext = chain.push(c);
    assert forall|k: int| 0 <= k < ext.len() - 1 implies #[trigger] linked(table, ext, k) by {
        if k < chain.len() - 1 {
            assert(linked(table, chain, k));
        }
    }
}

/// Along a chain that starts in a set closed under "child of", every
/// process is in that set.
proof fn lemma_chain_stays_inside(table: Seq<ProcessRow>, s: Seq<u32>, chain: Seq<u32>, k: int)
    requires
        0 <= k < chain.len(),
        is_chain(table, chain),
        s.contains(chain[0]),
        forall|j: int, x: int|
            0 <= j < s.len() && 0 <= x < table.len() && table[x].1 == Some(s[j]) ==> s.contains(
                table[x].0,
            ),
    ensures
        s.contains(chain[k]),
    decreases k,
{
    if k > 0 {
        lemma_chain_stays_inside(table, s, chain, k - 1);
        assert(linked(table, chain, k - 1));
        let x = choose|x: int|
            0 <= x < table.len() && table[x].0 == chain[k] && table[x].1 == Some(chain[k - 1]);
        let j = choose|j: int| 0 <= j < s.len() && s[j] == chain[k - 1];
        assert(table[x].1 == Some(s[j]));
    }
}

/// The processes of the tree below `root`, `root` first and each process
/// before its children, gathered level by level as a breadth-first walk of
/// `table` finds them. `None` exactly when `root` is its own descendant,
/// the one case in which the walk would never end.
pub fn process_tree(root: u32, table: &Vec<ProcessRow>) -> (r: Option<Vec<u32>>)
    requires
        pids_unique(table@),
    ensures
        r is None <==> on_parent_cycle(table@, root),
        r matches Some(s) ==> {
            &&& s@ == seq![root] + children_of_all(table@, s@)
            &&& s@.no_duplicates()
            &&& forall|j: int| 1 <= j < s@.len() ==> #[trigger] parent_listed_before(table@, s@, j)
            &&& forall|j: int, x: int|
                0 <= j < s@.len() && 0 <= x < table@.len() && table@[x].1 == Some(s@[j])
                    ==> s@.contains(table@[x].0)
        },
{
    let n = table.len();
    let mut list: Vec<u32> = Vec::new();
    list.push(root);
    let ghost mut src: Seq<(int, int)> = seq![(0int, 0int)];
    let ghost mut used: Set<int> = Set::empty();
    proof {
        assert(list@.take(0) =~= Seq::<u32>::empty());
        assert(children_of_all(table@, Seq::<u32>::empty()) =~= Seq::<u32>::empty());
        assert(list@ =~= seq![root] + children_of_all(table@, list@.take(0)));
        let ch = seq![root];
        assert(is_chain(table@, ch));
        assert(ch.len() >= 1 && ch[0] == root && ch.last() == list@[0]);
    }
    let mut i: usize = 0;
    while i < list.len()
        invariant
            pids_unique(table@),
            n == table.len(),
            1 <= list.len(),
            list@[0] == root,
            i <= list.len(),
            list.len() <= n + 1,
            list@ == seq![root] + children_of_all(table@, list@.take(i as int)),
            list@.no_duplicates(),
            src.len() == list.len(),
            forall|j: int|
                1 <= j < list.len() ==> {
                    &&& 0 <= (#[trigger] src[j]).0 < i
                    &&& src[j].0 < j
                    &&& 0 <= src[j].1 < n
                    &&& table@[src[j].1].0 == list@[j]
                    &&& table@[src[j].1].1 == Some(list@[src[j].0])
                },
            used.finite(),
            used.len() + 1 == list.len(),
            forall|x: int| used.contains(x) ==> 0 <= x < n,
            forall|x: int|
                used.contains(x) ==> exists|j: int| 1 <= j < list.len() && #[trigger] src[j].1 == x,
            forall|j: int, x: int|
                0 <= j < i && 0 <= x < n && table@[x].1 == Some(list@[j]) ==> list@.contains(
                    table@[x].0,
                ) && table@[x].0 != root,
            forall|j: int| 0 <= j < list.len() ==> reaches(table@, root, #[trigger] list@[j]),
        decreases n + 1 - i,
    {
        let p = list[i];
        let ghost before = list@;
        let mut x: usize = 0;
        assert(table@.take(0) =~= Seq::<ProcessRow>::empty());
        while x < n
            invariant
                pids_unique(table@),
                n == table.len(),
                i < list.len(),
                list@[0] == root,
                list@[i as int] == p,
                before.len() <= list.len(),
                forall|j: int| 0 <= j < before.len() ==> list@[j] == before[j],
                before == seq![root] + children_of_all(table@, before.take(i as int)),
                x <= n,
                list@ == before + children_of(table@.take(x as int), p),
                list@.no_duplicates(),
                src.len() == list.len(),
                forall|j: int|
                    1 <= j < list.len() ==> {
                        &&& 0 <= (#[trigger] src[j]).0 <= i
                        &&& src[j].0 < j
                        &&& 0 <= src[j].1 < n
                        &&& (src[j].0 == i ==> src[j].1 < x)
                        &&& table@[src[j].1].0 == list@[j]
                        &&& table@[src[j].1].1 == Some(list@[src[j].0])
                    },
                used.finite(),
                used.len() + 1 == list.len(),
                forall|y: int| used.contains(y) ==> 0 <= y < n,
                forall|y: int|
                    used.contains(y) ==> exists|j: int|
                        1 <= j < list.len() && #[trigger] src[j].1 == y,
                forall|j: int, y: int|
                    0 <= j < i && 0 <= y < n && table@[y].1 == Some(list@[j]) ==> list@.contains(
                        table@[y].0,
                    ) && table@[y].0 != root,
                forall|y: int|
                    0 <= y < x && table@[y].1 == Some(p) ==> list@.contains(table@[y].0)
                        && table@[y].0 != root,
                forall|j: int| 0 <= j < list.len() ==> reaches(table@, root, #[trigger] list@[j]),
            decreases n - x,
        {
            proof {
                lemma_children_step(table@, p, x as int);
            }
            let (c, parent) = table[x];
            let is_kid = match parent {
                Some(q) => q == p,
                None => false,
            };
            if is_kid {
                proof {
                    assert(is_child(table@, c, p));
                    assert(reaches(table@, root, list@[i as int]));
                    let ch = choose|ch: Seq<u32>|
                        ch.len() >= 1 && ch[0] == root && ch.last() == p && is_chain(table@, ch);
                    lemma_chain_extend(table@, ch, c);
                    assert(ch.push(c)[0] == root);
                    assert(ch.push(c).last() == c);
                    if c == root {
                        assert(on_parent_cycle(table@, root));
                    }
                }
                if c == root {
                    return None;
                }
                proof {
                    // `c` is not yet listed: its only parent is `p`, and `p`'s
                    // children listed so far come from earlier rows.
                    assert forall|j: int| 0 <= j < list.len() implies list@[j] != c by {
                        if j >= 1 && list@[j] == c {
                            let (k, y) = src[j];
                            assert(table@[y].0 == table@[x as int].0);
                            assert(y == x);
                            assert(list@[k] == list@[i as int]);
                            assert(k == i);
                        }
                    }
                    assert(!used.contains(x as int)) by {
                        if used.contains(x as int) {
                            let j = choose|j: int| 1 <= j < list.len() && #[trigger] src[j].1 == x;
                            assert(list@[j] == c);
                        }
                    }
                    let ch = choose|ch: Seq<u32>|
                        ch.len() >= 1 && ch[0] == root && ch.last() == p && is_chain(table@, ch);
                    lemma_chain_extend(table@, ch, c);
                    assert(ch.push(c)[0] == root);
                    assert(ch.push(c).last() == c);
                }
                let ghost pre = list@;
                list.push(c);
                proof {
                    let ghost old_src = src;
                    let ghost old_used = used;
                    src = src.push((i as int, x as int));
                    used = used.insert(x as int);
                    assert(list@ =~= before + children_of(table@.take(x + 1), p));
                    assert(forall|j: int| 0 <= j < list.len() - 1 ==> list@[j] == pre[j]);
                    assert forall|y: int| used.contains(y) implies exists|j: int|
                        1 <= j < list.len() && #[trigger] src[j].1 == y by {
                        if y == x {
                            assert(src[list.len() - 1].1 == y);
                        } else {
                            assert(old_used.contains(y));
                            let j = choose|j: int|
                                1 <= j < list.len() - 1 && #[trigger] old_src[j].1 == y;
                            assert(src[j] == old_src[j]);
                        }
                    }
                    assert(list@[list.len() - 1] == c);
                    assert(list@.contains(c));
                }
            }
            x = x + 1;
        }
        proof {
            assert(table@.take(n as int) =~= table@);
            assert(list@.take(i as int) =~= before.take(i as int));
            assert(list@[i as int] == before[i as int]);
            lemma_children_all_step(table@, list@, i as int);
            assert(list@.take(i + 1).take(i as int) =~= list@.take(i as int));
            lemma_children_all_step(table@, list@.take(i + 1), i as int);
            assert(list@ =~= seq![root] + children_of_all(table@, list@.take(i + 1)));
            vstd::set_lib::lemma_int_range(0, n as int);
            assert(used.subset_of(vstd::set_lib::set_int_range(0, n as int)));
            vstd::set_lib::lemma_len_subset(used, vstd::set_lib::set_int_range(0, n as int));
        }
        i = i + 1;
    }
    proof {
        assert(list@.take(list.len() as int) =~= list@);
        if on_parent_cycle(table@, root) {
            let ch = choose|ch: Seq<u32>|
                ch.len() >= 2 && ch[0] == root && ch.last() == root && is_chain(table@, ch);
            assert(list@.contains(ch[0])) by {
                assert(list@[0] == root);
            }
            lemma_chain_stays_inside(table@, list@, ch, ch.len() - 2);
            assert(linked(table@, ch, ch.len() - 2));
            let y = choose|y: int|
                0 <= y < table@.len() && table@[y].0 == ch[ch.len() - 1] && table@[y].1 == Some(
                    ch[ch.len() - 2],
                );
            let j = choose|j: int| 0 <= j < list@.len() && list@[j] == ch[ch.len() - 2];
            assert(table@[y].1 == Some(list@[j]));
            assert(false);
        }
        assert forall|j: int| 1 <= j < list@.len() implies #[trigger] parent_listed_before(table@, list@, j) by {
            let k = src[j].0;
            let y = src[j].1;
            assert(0 <= y < table@.len() && table@[y].0 == list@[j] && table@[y].1 == Some(list@[k]));
            assert(is_child(table@, list@[j], list@[k]));
        }
    }
    Some(list)
}

/// The order in which the tree below a process is stopped: the reverse of
/// [`process_tree`], so that children go before their parents.
pub fn kill_order(tree: &Vec<u32>) -> (r: Vec<u32>)
    ensures
        r@ == tree@.reverse(),
{
    let mut r: Vec<u32> = Vec::new();
    let mut i: usize = tree.len();
    while i > 0
        invariant
            i <= tree.len(),
            r@ == tree@.subrange(i as int, tree.len() as int).reverse(),
        decreases i,
    {
        i = i - 1;
        r.push(tree[i]);
        assert(r@ =~= tree@.subrange(i as int, tree.len() as int).reverse());
    }
    assert(tree@.subrange(0, tree.len() as int) =~= tree@);
    r
}


proof fn lemma_listed_reaches(table: Seq<ProcessRow>, root: u32, tree: Seq<u32>, j: int)
    requires
        tree.len() >= 1,
        tree[0] == root,
        forall|i: int| 1 <= i < tree.len() ==> #[trigger] parent_listed_before(table, tree, i),
        0 <= j < tree.len(),
    ensures
        reaches(table, root, tree[j]),
    decreases j,
{
    if j == 0 {
        let ch = seq![root];
        assert(is_chain(table, ch));
        assert(ch.last() == tree[0]);
    } else {
        assert(parent_listed_before(table, tree, j));
        let k = choose|k: int| 0 <= k < j && is_child(table, tree[j], tree[k]);
        lemma_listed_reaches(table, root, tree, k);
        let ch = choose|ch: Seq<u32>|
            ch.len() >= 1 && ch[0] == root && ch.last() == tree[k] && is_chain(table, ch);
        lemma_chain_extend(table, ch, tree[j]);
        assert(ch.push(tree[j])[0] == root);
        assert(ch.push(tree[j]).last() == tree[j]);
    }
}

/// The whole tree and nothing else: a tree built by [`process_tree`] for
/// `root` lists exactly `root` and its descendants.
pub proof fn lemma_tree_is_descendants(table: Seq<ProcessRow>, root: u32, tree: Seq<u32>)
    requires
        tree.len() >= 1,
        tree[0] == root,
        forall|i: int| 1 <= i < tree.len() ==> #[trigger] parent_listed_before(table, tree, i),
        forall|j: int, x: int|
            0 <= j < tree.len() && 0 <= x < table.len() && table[x].1 == Some(tree[j])
                ==> tree.contains(table[x].0),
    ensures
        forall|p: u32| tree.contains(p) <==> reaches(table, root, p),
{
    assert forall|p: u32| tree.contains(p) <==> reaches(table, root, p) by {
        if tree.contains(p) {
            let j = choose|j: int| 0 <= j < tree.len() && tree[j] == p;
            lemma_listed_reaches(table, root, tree, j);
        }
        if reaches(table, root, p) {
            let ch = choose|ch: Seq<u32>|
                ch.len() >= 1 && ch[0] == root && ch.last() == p && is_chain(table, ch);
            assert(tree.contains(ch[0])) by {
                assert(tree[0] == root);
            }
            lemma_chain_stays_inside(table, tree, ch, ch.len() - 1);
        }
    }
}

/// The process at position `m` of `s` has its parent at a later position.
pub open spec fn parent_listed_after(table: Seq<ProcessRow>, s: Seq<u32>, m: int) -> bool {
    exists|m2: int| m < m2 < s.len() && is_child(table, s[m], s[m2])
}

/// Children are stopped before their parents: in the kill order of a tree
/// built by [`process_tree`], every process other than the root comes
/// before a process that is its parent.
pub proof fn lemma_children_stopped_first(table: Seq<ProcessRow>, tree: Seq<u32>)
    requires
        forall|j: int| 1 <= j < tree.len() ==> #[trigger] parent_listed_before(table, tree, j),
    ensures
        forall|m: int|
            0 <= m < tree.len() - 1 ==> #[trigger] parent_listed_after(table, tree.reverse(), m),
{
    assert forall|m: int| 0 <= m < tree.len() - 1 implies #[trigger] parent_listed_after(
        table,
        tree.reverse(),
        m,
    ) by {
        let j = tree.len() - 1 - m;
        assert(parent_listed_before(table, tree, j));
        let k = choose|k: int| 0 <= k < j && is_child(table, tree[j], tree[k]);
        let m2 = tree.len() - 1 - k;
        assert(tree.reverse()[m] == tree[j]);
        assert(tree.reverse()[m2] == tree[k]);
        assert(is_child(table, tree.reverse()[m], tree.reverse()[m2]));
    }
}

} // verus!
