//! Tree prefixes: the box-drawing prefixes that make a flat, ordered list
//! read as a forest, found from a parent-of predicate alone.
use vstd::prelude::*;

use crate::utils::push_char;

verus! {

/// Climbing from `cur` along `parents`, `found` is the first candidate that
/// `is_parent_of` accepted as a parent of `item`, every candidate passed over
/// having been refused; `None` when the climb ran past a root.
pub open spec fn climb<I, F: Fn(&I, &I) -> bool>(
    is_parent_of: F,
    items: Seq<I>,
    parents: Seq<Option<usize>>,
    item: I,
    cur: Option<usize>,
    found: Option<usize>,
) -> bool
    decreases
            match cur {
                Some(c) => c + 1,
                None => 0,
            },
{
    match cur {
        None => found is None,
        Some(c) => {
            &&& c < items.len()
            &&& c < parents.len()
            &&& {
                ||| found == Some(c) && is_parent_of.ensures((&items[c as int], &item), true)
                ||| is_parent_of.ensures((&items[c as int], &item), false) && match parents[c as int] {
                    Some(p) => p < c && climb(is_parent_of, items, parents, item, Some(p), found),
                    None => found is None,
                }
            }
        },
    }
}

/// `parents[i]` is what climbing from the item before item `i` finds for it.
pub open spec fn parent_found<I, F: Fn(&I, &I) -> bool>(
    is_parent_of: F,
    items: Seq<I>,
    parents: Seq<Option<usize>>,
    i: int,
) -> bool {
    climb(
        is_parent_of,
        items,
        parents,
        items[i],
        if i == 0 {
            None
        } else {
            Some((i - 1) as usize)
        },
        parents[i],
    )
}

/// A climb over a prefix of the items that holds them all reads the same.
proof fn lemma_climb_sub<I, F: Fn(&I, &I) -> bool>(
    is_parent_of: F,
    items: Seq<I>,
    sub: Seq<I>,
    parents: Seq<Option<usize>>,
    item: I,
    cur: Option<usize>,
    found: Option<usize>,
)
    requires
        climb(is_parent_of, items, parents, item, cur, found),
        cur matches Some(c) ==> c < sub.len(),
        sub.len() <= items.len(),
        forall|k: int| 0 <= k < sub.len() ==> #[trigger] sub[k] == items[k],
        forall|k: int| 0 <= k < parents.len() ==> match #[trigger] parents[k] {
            Some(p) => p < k,
            None => true,
        },
    ensures
        climb(is_parent_of, sub, parents, item, cur, found),
    decreases
            match cur {
                Some(c) => c + 1,
                None => 0,
            },
{
    match cur {
        None => {},
        Some(c) => {
            assert(sub[c as int] == items[c as int]);
            if found == Some(c) && is_parent_of.ensures((&items[c as int], &item), true) {
            } else {
                match parents[c as int] {
                    Some(p) => lemma_climb_sub(is_parent_of, items, sub, parents, item, Some(p), found),
                    None => {},
                }
            }
        },
    }
}

/// `parents` gives, for each item, the parent found by climbing from the
/// item just before it, as `is_parent_of` answered; a parent always comes
/// before its child.
pub open spec fn found_parents<I, F: Fn(&I, &I) -> bool>(
    is_parent_of: F,
    items: Seq<I>,
    parents: Seq<Option<usize>>,
) -> bool {
    &&& parents.len() == items.len()
    &&& forall|i: int|
        0 <= i < items.len() ==> match #[trigger] parents[i] {
            Some(p) => p < i,
            None => true,
        }
    &&& forall|i: int| 0 <= i < items.len() ==> #[trigger] parent_found(is_parent_of, items, parents, i)
}

/// Whether item `i` is the last child of its parent: no later item has the
/// same parent.
pub open spec fn is_last_child(parents: Seq<Option<usize>>, i: int) -> bool {
    forall|j: int| i < j < parents.len() ==> #[trigger] parents[j] != parents[i]
}

/// For each ancestor depth of item `i`, root side first, whether that
/// ancestor (the item itself last) is the last child of its parent. Empty
/// for a root.
pub open spec fn tree_level(parents: Seq<Option<usize>>, i: int) -> Seq<bool>
    decreases i,
{
    if 0 <= i < parents.len() {
        match parents[i] {
            Some(p) => if p < i {
                tree_level(parents, p as int).push(is_last_child(parents, i))
            } else {
                Seq::empty()
            },
            None => Seq::empty(),
        }
    } else {
        Seq::empty()
    }
}

/// The glyph for one depth: a branch or an edge at the item's own depth, a
/// pipe or blanks above it where the ancestor has or has not later siblings.
pub open spec fn level_glyph(is_last_child: bool, is_last_col: bool) -> Seq<char> {
    if is_last_child && is_last_col {
        seq![' ', '└', '─']
    } else if is_last_child {
        seq![' ', ' ', ' ']
    } else if is_last_col {
        seq![' ', '├', '─']
    } else {
        seq![' ', '│', ' ']
    }
}

/// The glyphs of the first `k` depths of `level`.
pub open spec fn level_cols(level: Seq<bool>, k: nat) -> Seq<char>
    decreases k,
{
    if k == 0 {
        Seq::empty()
    } else {
        level_cols(level, (k - 1) as nat) + level_glyph(level[k - 1], k - 1 == level.len() - 1)
    }
}

/// The prefix that `level` draws.
pub open spec fn level_text(level: Seq<bool>) -> Seq<char> {
    level_cols(level, level.len())
}

/// A node of the forest being built.
struct TreeNode {
    parent: Option<usize>,
    level: Vec<bool>,
    children: Vec<usize>,
}

/// The parent of each node.
spec fn parents_of(nodes: Seq<TreeNode>) -> Seq<Option<usize>> {
    nodes.map_values(|n: TreeNode| n.parent)
}

/// Every node's children are, in increasing order, exactly the nodes whose
/// parent it is.
spec fn children_listed(nodes: Seq<TreeNode>) -> bool {
    &&& forall|p: int, k: int|
        0 <= p < nodes.len() && 0 <= k < nodes[p].children@.len() ==> {
            let ch = #[trigger] nodes[p].children@[k];
            &&& ch < nodes.len()
            &&& nodes[ch as int].parent == Some(p as usize)
        }
    &&& forall|p: int, k: int, l: int|
        0 <= p < nodes.len() && 0 <= k < l < nodes[p].children@.len() ==> #[trigger] nodes[p].children@[k]
            < #[trigger] nodes[p].children@[l]
    &&& forall|j: int|
        0 <= j < nodes.len() && nodes[j].parent is Some ==> {
            let p = nodes[j].parent->0 as int;
            &&& p < nodes.len()
            &&& exists|k: int| 0 <= k < nodes[p].children@.len() && #[trigger] nodes[p].children@[k] == j
        }
}

/// A climb that only reads parents below `bound` reads the same in any
/// sequence that agrees with `parents` there.
proof fn lemma_climb_extend<I, F: Fn(&I, &I) -> bool>(
    is_parent_of: F,
    items: Seq<I>,
    parents: Seq<Option<usize>>,
    more: Seq<Option<usize>>,
    item: I,
    cur: Option<usize>,
    found: Option<usize>,
)
    requires
        climb(is_parent_of, items, parents, item, cur, found),
        parents.len() <= more.len(),
        forall|j: int| 0 <= j < parents.len() ==> #[trigger] more[j] == parents[j],
    ensures
        climb(is_parent_of, items, more, item, cur, found),
    decreases
            match cur {
                Some(c) => c + 1,
                None => 0,
            },
{
    match cur {
        None => {},
        Some(c) => {
            if found == Some(c) && is_parent_of.ensures((&items[c as int], &item), true) {
            } else {
                match parents[c as int] {
                    Some(p) => lemma_climb_extend(is_parent_of, items, parents, more, item, Some(p), found),
                    None => {},
                }
            }
        },
    }
}

/// Find each item's parent: climb from the previous item through the parents
/// found so far until `is_parent_of` accepts one, or past a root.
#[verifier::rlimit(30)]
fn make_tree_by_reverse_depth_first<I, F: Fn(&I, &I) -> bool>(items: &[I], is_parent_of: &F) -> (nodes: Vec<TreeNode>)
    requires
        forall|a: &I, b: &I| is_parent_of.requires((a, b)),
    ensures
        found_parents(*is_parent_of, items@, parents_of(nodes@)),
        children_listed(nodes@),
        forall|i: int| 0 <= i < nodes@.len() ==> (#[trigger] nodes@[i]).level@ == Seq::<bool>::empty(),
{
    let mut nodes: Vec<TreeNode> = Vec::new();
    let n = items.len();
    for i in 0..n
        invariant
            n == items@.len(),
            nodes@.len() == i,
            forall|a: &I, b: &I| is_parent_of.requires((a, b)),
            found_parents(*is_parent_of, items@.subrange(0, i as int), parents_of(nodes@)),
            forall|j: int| 0 <= j < i ==> #[trigger] parent_found(*is_parent_of, items@, parents_of(nodes@), j),
            children_listed(nodes@),
            forall|k: int| 0 <= k < nodes@.len() ==> (#[trigger] nodes@[k]).level@ == Seq::<bool>::empty(),
    {
        let ghost parents = parents_of(nodes@);
        assert(found_parents(*is_parent_of, items@.subrange(0, i as int), parents));
        let ghost start: Option<usize> = if i == 0 {
            None
        } else {
            Some((i - 1) as usize)
        };
        let mut current: Option<usize> = if i == 0 {
            None
        } else {
            Some(i - 1)
        };
        loop
            invariant_except_break
                nodes@.len() == i,
                i < n,
                n == items@.len(),
                parents == parents_of(nodes@),
                forall|a: &I, b: &I| is_parent_of.requires((a, b)),
                current matches Some(c) ==> c < i,
                forall|k: int|
                    0 <= k < parents.len() ==> match #[trigger] parents[k] {
                        Some(p) => p < k,
                        None => true,
                    },
                forall|found: Option<usize>|
                    #[trigger] climb(*is_parent_of, items@, parents, items@[i as int], current, found)
                        ==> climb(*is_parent_of, items@, parents, items@[i as int], start, found),
            ensures
                current matches Some(c) ==> c < i,
                climb(*is_parent_of, items@, parents, items@[i as int], start, current),
            decreases
                    match current {
                        Some(c) => c + 1,
                        None => 0,
                    },
        {
            match current {
                None => {
                    assert(climb(*is_parent_of, items@, parents, items@[i as int], current, current));
                    break ;
                },
                Some(c) => {
                    let accepted = is_parent_of(&items[c], &items[i]);
                    if accepted {
                        assert(climb(*is_parent_of, items@, parents, items@[i as int], current, current));
                        break ;
                    }
                    let next = nodes[c].parent;
                    proof {
                        assert(parents[c as int] == next);
                        assert(is_parent_of.ensures((&items@[c as int], &items@[i as int]), false));
                        assert forall|found: Option<usize>|
                            #[trigger] climb(*is_parent_of, items@, parents, items@[i as int], next, found)
                                implies climb(*is_parent_of, items@, parents, items@[i as int], start, found) by {
                            assert(climb(*is_parent_of, items@, parents, items@[i as int], Some(c), found));
                        }
                    }
                    current = next;
                },
            }
        }
        let ghost old_nodes = nodes@;
        if let Some(p) = current {
            nodes[p].children.push(i);
        }
        nodes.push(TreeNode { parent: current, level: Vec::new(), children: Vec::new() });
        proof {
            let np = parents_of(nodes@);
            assert(np =~= parents.push(current));
            assert forall|j: int| 0 <= j < i + 1 implies #[trigger] parent_found(*is_parent_of, items@, np, j) by {
                if j < i {
                    assert(parent_found(*is_parent_of, items@, parents, j));
                    lemma_climb_extend(
                        *is_parent_of,
                        items@,
                        parents,
                        np,
                        items@[j],
                        if j == 0 {
                            None
                        } else {
                            Some((j - 1) as usize)
                        },
                        parents[j],
                    );
                } else {
                    lemma_climb_extend(*is_parent_of, items@, parents, np, items@[i as int], start, current);
                }
            }
            let sub = items@.subrange(0, i + 1);
            assert forall|j: int| 0 <= j < sub.len() implies #[trigger] parent_found(*is_parent_of, sub, np, j) by {
                assert(parent_found(*is_parent_of, items@, np, j));
                assert(sub[j] == items@[j]);
                assert(forall|k: int| 0 <= k < i + 1 ==> #[trigger] sub[k] == items@[k]);
                lemma_climb_sub(*is_parent_of, items@, sub, np, items@[j], if j == 0 {
                    None
                } else {
                    Some((j - 1) as usize)
                }, np[j]);
            }
            assert forall|j: int| 0 <= j < np.len() implies match #[trigger] np[j] {
                Some(p) => p < j,
                None => true,
            } by {
                if j < i {
                    assert(np[j] == parents[j]);
                    assert(found_parents(*is_parent_of, items@.subrange(0, i as int), parents));
                }
            }
            assert(found_parents(*is_parent_of, sub, np));
            assert forall|k: int| 0 <= k < nodes@.len() implies (#[trigger] nodes@[k]).level@
                == Seq::<bool>::empty() by {
                if k < i {
                    assert(nodes@[k].level == old_nodes[k].level);
                }
            }
            assert(children_listed(nodes@)) by {
                assert forall|p: int, k: int|
                    0 <= p < nodes@.len() && 0 <= k < nodes@[p].children@.len() implies {
                        let ch = #[trigger] nodes@[p].children@[k];
                        &&& ch < nodes@.len()
                        &&& nodes@[ch as int].parent == Some(p as usize)
                    } by {
                    if k < old_nodes[p].children@.len() {
                        assert(nodes@[p].children@[k] == old_nodes[p].children@[k]);
                    }
                }
                assert forall|j: int|
                    0 <= j < nodes@.len() && nodes@[j].parent is Some implies {
                        let p = nodes@[j].parent->0 as int;
                        &&& p < nodes@.len()
                        &&& exists|k: int| 0 <= k < nodes@[p].children@.len() && #[trigger] nodes@[p].children@[k] == j
                    } by {
                    let p = nodes@[j].parent->0 as int;
                    if j < i {
                        let k = choose|k: int| 0 <= k < old_nodes[p].children@.len() && #[trigger] old_nodes[p].children@[k] == j;
                        assert(nodes@[p].children@[k] == j);
                    } else {
                        let k = old_nodes[p].children@.len() as int;
                        assert(nodes@[p].children@[k] == j);
                    }
                }
            }
        }
    }
    proof {
        assert(items@.subrange(0, n as int) =~= items@);
    }
    nodes
}

/// A node's children, in order, are the nodes whose parent it is; so a
/// child is its parent's last child exactly when it ends the list.
proof fn lemma_last_in_list(nodes: Seq<TreeNode>, idx: usize, k: int)
    requires
        children_listed(nodes),
        idx < nodes.len(),
        0 <= k < nodes[idx as int].children@.len(),
    ensures
        is_last_child(parents_of(nodes), nodes[idx as int].children@[k] as int) == (k
            == nodes[idx as int].children@.len() - 1),
{
    let parents = parents_of(nodes);
    let list = nodes[idx as int].children@;
    let ch = list[k] as int;
    assert(nodes[ch].parent == Some(idx));
    assert(parents[ch] == nodes[ch].parent);
    if k == list.len() - 1 {
        assert forall|j: int| ch < j < parents.len() implies #[trigger] parents[j] != parents[ch] by {
            assert(parents[j] == nodes[j].parent);
            if parents[j] == parents[ch] {
                assert(nodes[j].parent is Some);
                assert(nodes[j].parent->0 == idx);
                assert(exists|m: int| 0 <= m < nodes[idx as int].children@.len() && #[trigger] nodes[idx as int].children@[m] == j);
                let m = choose|m: int| 0 <= m < nodes[idx as int].children@.len() && #[trigger] nodes[idx as int].children@[m] == j;
                if m < k {
                    assert(nodes[idx as int].children@[m] < nodes[idx as int].children@[k]);
                }
            }
        }
    } else {
        let j = list[k + 1] as int;
        assert(nodes[idx as int].children@[k] < nodes[idx as int].children@[k + 1]);
        assert(nodes[j].parent == Some(idx));
        assert(parents[j] == nodes[j].parent);
        assert(parents[j] == parents[ch]);
    }
}

/// Whether children are listed depends on parents and children alone.
proof fn lemma_children_listed_frame(a: Seq<TreeNode>, b: Seq<TreeNode>)
    requires
        children_listed(a),
        a.len() == b.len(),
        forall|k: int| 0 <= k < a.len() ==> #[trigger] b[k].children == a[k].children,
        forall|k: int| 0 <= k < a.len() ==> #[trigger] b[k].parent == a[k].parent,
    ensures
        children_listed(b),
{
    assert forall|p: int, k: int| 0 <= p < b.len() && 0 <= k < b[p].children@.len() implies {
        let ch = #[trigger] b[p].children@[k];
        &&& ch < b.len()
        &&& b[ch as int].parent == Some(p as usize)
    } by {
        assert(b[p].children == a[p].children);
        let ch = a[p].children@[k];
        assert(b[ch as int].parent == a[ch as int].parent);
    }
    assert forall|p: int, k: int, l: int| 0 <= p < b.len() && 0 <= k < l < b[p].children@.len() implies #[trigger] b[p].children@[k]
        < #[trigger] b[p].children@[l] by {
        assert(b[p].children == a[p].children);
        assert(a[p].children@[k] < a[p].children@[l]);
    }
    assert forall|j: int| 0 <= j < b.len() && b[j].parent is Some implies {
        let p = b[j].parent->0 as int;
        &&& p < b.len()
        &&& exists|k: int| 0 <= k < b[p].children@.len() && #[trigger] b[p].children@[k] == j
    } by {
        assert(b[j].parent == a[j].parent);
        let p = a[j].parent->0 as int;
        let k = choose|k: int| 0 <= k < a[p].children@.len() && #[trigger] a[p].children@[k] == j;
        assert(b[p].children == a[p].children);
        assert(b[p].children@[k] == j);
    }
}

/// Give each child of node `idx` its level: the level of `idx`, followed by
/// whether it is the last child in the list. Nothing changes when there is
/// no node `idx`.
#[verifier::rlimit(30)]
fn write_tree_level_of_children(nodes: &mut Vec<TreeNode>, idx: usize)
    requires
        idx < old(nodes)@.len() ==> forall|k: int|
            0 <= k < old(nodes)@[idx as int].children@.len() ==> {
                let c = #[trigger] old(nodes)@[idx as int].children@[k];
                &&& c < old(nodes)@.len()
                &&& c != idx
            },
        idx < old(nodes)@.len() ==> forall|k: int, l: int|
            0 <= k < l < old(nodes)@[idx as int].children@.len() ==> #[trigger] old(
                nodes,
            )@[idx as int].children@[k] != #[trigger] old(nodes)@[idx as int].children@[l],
    ensures
        final(nodes)@.len() == old(nodes)@.len(),
        forall|j: int| 0 <= j < old(nodes)@.len() ==> #[trigger] final(nodes)@[j].parent == old(nodes)@[j].parent,
        forall|j: int| 0 <= j < old(nodes)@.len() ==> #[trigger] final(nodes)@[j].children == old(nodes)@[j].children,
        idx < old(nodes)@.len() ==> forall|k: int|
            0 <= k < old(nodes)@[idx as int].children@.len() ==> (#[trigger] final(nodes)@[old(
                nodes,
            )@[idx as int].children@[k] as int]).level@ == old(nodes)@[idx as int].level@.push(
                k == old(nodes)@[idx as int].children@.len() - 1,
            ),
        forall|j: int|
            0 <= j < old(nodes)@.len() && (idx >= old(nodes)@.len() || forall|k: int|
                0 <= k < old(nodes)@[idx as int].children@.len() ==> #[trigger] old(nodes)@[idx as int].children@[k]
                    != j) ==> (#[trigger] final(nodes)@[j]).level == old(nodes)@[j].level,
{
    if idx >= nodes.len() {
        return ;
    }
    let ghost start = nodes@;
    let ghost list = start[idx as int].children@;
    let ghost plevel = start[idx as int].level@;
    let nchildren = nodes[idx].children.len();
    for k in 0..nchildren
        invariant
            nodes@.len() == start.len(),
            idx < start.len(),
            list == start[idx as int].children@,
            plevel == start[idx as int].level@,
            nchildren == list.len(),
            forall|m: int| 0 <= m < list.len() ==> #[trigger] list[m] < start.len() && list[m] != idx,
            forall|m: int, l: int| 0 <= m < l < list.len() ==> #[trigger] list[m] != #[trigger] list[l],
            forall|j: int| 0 <= j < start.len() ==> #[trigger] nodes@[j].parent == start[j].parent,
            forall|j: int| 0 <= j < start.len() ==> #[trigger] nodes@[j].children == start[j].children,
            forall|m: int|
                0 <= m < k ==> (#[trigger] nodes@[list[m] as int]).level@ == plevel.push(m == nchildren - 1),
            forall|j: int|
                0 <= j < start.len() && (forall|m: int| 0 <= m < k ==> #[trigger] list[m] != j) ==> (
                #[trigger] nodes@[j]).level == start[j].level,
    {
        let ch = nodes[idx].children[k];
        proof {
            assert(ch == list[k as int]);
            assert(nodes@[idx as int].level == start[idx as int].level);
        }
        let mut lnext: Vec<bool> = Vec::new();
        let plen = nodes[idx].level.len();
        for q in 0..plen
            invariant
                idx < nodes@.len(),
                plen == nodes@[idx as int].level@.len(),
                lnext@ == nodes@[idx as int].level@.subrange(0, q as int),
        {
            lnext.push(nodes[idx].level[q]);
            assert(lnext@ =~= nodes@[idx as int].level@.subrange(0, q + 1));
        }
        assert(lnext@ =~= plevel);
        lnext.push(k == nchildren - 1);
        let ghost before = nodes@;
        nodes[ch].level = lnext;
        proof {
            assert forall|m: int| 0 <= m < k + 1 implies (#[trigger] nodes@[list[m] as int]).level@ == plevel.push(
                m == nchildren - 1,
            ) by {
                if m < k {
                    assert(list[m] != list[k as int]);
                    assert(before[list[m] as int].level@ == plevel.push(m == nchildren - 1));
                }
            }
            assert forall|j: int|
                0 <= j < start.len() && (forall|m: int| 0 <= m < k + 1 ==> #[trigger] list[m] != j) implies (
                #[trigger] nodes@[j]).level == start[j].level by {
                assert(list[k as int] != j);
                assert(before[j].level == start[j].level);
            }
        }
    }
}

/// The children of node `i` of a well-formed forest are in range and not
/// `i` itself.
proof fn lemma_children_fit(nodes: Seq<TreeNode>, i: usize)
    requires
        i < nodes.len(),
        children_listed(nodes),
        forall|k: int|
            0 <= k < nodes.len() ==> match #[trigger] parents_of(nodes)[k] {
                Some(p) => p < k,
                None => true,
            },
    ensures
        forall|k: int|
            0 <= k < nodes[i as int].children@.len() ==> {
                let c = #[trigger] nodes[i as int].children@[k];
                &&& c < nodes.len()
                &&& c != i
            },
        forall|k: int, l: int|
            0 <= k < l < nodes[i as int].children@.len() ==> #[trigger] nodes[i as int].children@[k]
                != #[trigger] nodes[i as int].children@[l],
{
    let list = nodes[i as int].children@;
    assert forall|k: int| 0 <= k < list.len() implies {
        let c = #[trigger] list[k];
        &&& c < nodes.len()
        &&& c != i
    } by {
        let c = list[k] as int;
        assert(nodes[c].parent == Some(i));
        assert(parents_of(nodes)[c] == nodes[c].parent);
    }
    assert forall|k: int, l: int| 0 <= k < l < list.len() implies #[trigger] list[k] != #[trigger] list[l] by {
        assert(nodes[i as int].children@[k] < nodes[i as int].children@[l]);
    }
}

/// Once the levels of all nodes whose parent comes before `i` are right,
/// giving node `i`'s children their levels makes right those of all nodes
/// whose parent comes before `i + 1`.
proof fn lemma_levels_step(before: Seq<TreeNode>, after: Seq<TreeNode>, i: usize)
    requires
        i < before.len(),
        children_listed(before),
        forall|k: int|
            0 <= k < before.len() ==> match #[trigger] parents_of(before)[k] {
                Some(p) => p < k,
                None => true,
            },
        forall|j: int|
            0 <= j < before.len() && (parents_of(before)[j] is None || parents_of(before)[j]->0 < i)
                ==> (#[trigger] before[j]).level@ == tree_level(parents_of(before), j),
        after.len() == before.len(),
        forall|j: int| 0 <= j < before.len() ==> #[trigger] after[j].parent == before[j].parent,
        forall|j: int| 0 <= j < before.len() ==> #[trigger] after[j].children == before[j].children,
        forall|k: int|
            0 <= k < before[i as int].children@.len() ==> (#[trigger] after[before[i as int].children@[k] as int]).level@
                == before[i as int].level@.push(k == before[i as int].children@.len() - 1),
        forall|j: int|
            0 <= j < before.len() && (forall|k: int|
                0 <= k < before[i as int].children@.len() ==> #[trigger] before[i as int].children@[k] != j)
                ==> (#[trigger] after[j]).level == before[j].level,
    ensures
        parents_of(after) == parents_of(before),
        children_listed(after),
        forall|j: int|
            0 <= j < after.len() && (parents_of(before)[j] is None || parents_of(before)[j]->0 < i + 1)
                ==> (#[trigger] after[j]).level@ == tree_level(parents_of(before), j),
{
    let parents = parents_of(before);
    let list = before[i as int].children@;
    assert(parents_of(after) =~= parents);
    lemma_children_listed_frame(before, after);
    assert(parents[i as int] is None || parents[i as int]->0 < i);
    assert(before[i as int].level@ == tree_level(parents, i as int));
    assert forall|j: int|
        0 <= j < after.len() && (parents[j] is None || parents[j]->0 < i + 1) implies (#[trigger] after[j]).level@
            == tree_level(parents, j) by {
        assert(parents[j] == before[j].parent);
        if parents[j] == Some(i) {
            let k = choose|k: int| 0 <= k < list.len() && #[trigger] list[k] == j;
            lemma_last_in_list(before, i, k);
            assert(after[list[k] as int].level@ == before[i as int].level@.push(k == list.len() - 1));
        } else {
            assert forall|k: int| 0 <= k < list.len() implies #[trigger] list[k] != j by {
                let c = list[k] as int;
                assert(before[c].parent == Some(i));
            }
            assert(after[j].level == before[j].level);
        }
    }
}

/// The prefixes that draw `items` as a forest, one per item and in the same
/// order. The items are taken as sorted for display, each one's parent
/// before it; `is_parent_of(maybe_parent, item)` says whether an item is
/// the parent of another. Each item's parent is found by climbing from the
/// item before it through the parents found so far, until `is_parent_of`
/// accepts one; an item with none is a root, with an empty prefix.
#[verifier::rlimit(30)]
pub fn provide_prefix<I, F>(items: &[I], is_parent_of: F) -> (r: Vec<String>)
    where
        F: Fn(&I, &I) -> bool,
    requires
        forall|a: &I, b: &I| is_parent_of.requires((a, b)),
    ensures
        r@.len() == items@.len(),
        exists|parents: Seq<Option<usize>>|
            #[trigger] found_parents(is_parent_of, items@, parents) && forall|i: int|
                0 <= i < items@.len() ==> (#[trigger] r@[i])@ == level_text(tree_level(parents, i)),
{
    let mut nodes = make_tree_by_reverse_depth_first(items, &is_parent_of);
    let ghost parents = parents_of(nodes@);
    let n = nodes.len();
    for i in 0..n
        invariant
            n == nodes@.len(),
            parents_of(nodes@) == parents,
            children_listed(nodes@),
            forall|k: int|
                0 <= k < n ==> match #[trigger] parents[k] {
                    Some(p) => p < k,
                    None => true,
                },
            forall|j: int|
                0 <= j < n && (parents[j] is None || parents[j]->0 < i) ==> (#[trigger] nodes@[j]).level@
                    == tree_level(parents, j),
    {
        let ghost before = nodes@;
        proof {
            lemma_children_fit(before, i);
        }
        write_tree_level_of_children(&mut nodes, i);
        proof {
            lemma_levels_step(before, nodes@, i);
        }
    }
    let mut r: Vec<String> = Vec::new();
    for i in 0..n
        invariant
            n == nodes@.len(),
            r@.len() == i,
            forall|j: int| 0 <= j < n ==> (#[trigger] nodes@[j]).level@ == tree_level(parents, j),
            forall|j: int| 0 <= j < i ==> (#[trigger] r@[j])@ == level_text(tree_level(parents, j)),
    {
        r.push(level_to_string(&nodes[i].level));
    }
    r
}

/// The prefix that `level` draws.
fn level_to_string(level: &Vec<bool>) -> (r: String)
    ensures
        r@ == level_text(level@),
{
    let mut prefix = String::new();
    let n = level.len();
    for col in 0..n
        invariant
            n == level@.len(),
            prefix@ == level_cols(level@, col as nat),
    {
        let is_last_child = level[col];
        let is_last_col = col == n - 1;
        let (a, b, c) = if is_last_child && is_last_col {
            (' ', '└', '─')
        } else if is_last_child {
            (' ', ' ', ' ')
        } else if is_last_col {
            (' ', '├', '─')
        } else {
            (' ', '│', ' ')
        };
        push_char(&mut prefix, a);
        push_char(&mut prefix, b);
        push_char(&mut prefix, c);
        assert(prefix@ =~= level_cols(level@, (col + 1) as nat));
    }
    prefix
}

} // verus!
