//! Operator usage: how many nodes use each operator, grouped by defaulted
//! domain and operator name, most used first.
use crate::onnx::NodeProto;
use vstd::prelude::*;

verus! {

/// The domain that an empty domain name stands for.
pub open spec fn default_domain(d: Seq<char>) -> Seq<char> {
    if d.len() == 0 {
        "ai.onnx"@
    } else {
        d
    }
}

/// The operator a node uses: its defaulted domain and its operator name.
pub open spec fn node_key(n: NodeProto) -> (Seq<char>, Seq<char>) {
    (default_domain(n.domain@), n.op_type@)
}

/// How many of `nodes` use the operator `key`.
pub open spec fn key_count(nodes: Seq<NodeProto>, key: (Seq<char>, Seq<char>)) -> nat
    decreases nodes.len(),
{
    if nodes.len() == 0 {
        0
    } else {
        key_count(nodes.drop_last(), key) + (if node_key(nodes.last()) == key { 1nat } else { 0nat })
    }
}

/// Operator `a` is used by some node before any node uses operator `b`.
pub open spec fn first_seen_before(
    nodes: Seq<NodeProto>,
    a: (Seq<char>, Seq<char>),
    b: (Seq<char>, Seq<char>),
) -> bool {
    exists|p: int| {
        &&& 0 <= p < nodes.len()
        &&& #[trigger] node_key(nodes[p]) == a
        &&& forall|q: int| 0 <= q <= p ==> node_key(#[trigger] nodes[q]) != b
    }
}

pub struct OperatorUsage {
    pub domain: String,
    pub name: String,
    pub count: usize,
}

pub open spec fn usage_key(u: OperatorUsage) -> (Seq<char>, Seq<char>) {
    (u.domain@, u.name@)
}

/// The sum of the counts.
pub open spec fn count_sum(us: Seq<OperatorUsage>) -> int
    decreases us.len(),
{
    if us.len() == 0 {
        0
    } else {
        count_sum(us.drop_last()) + us.last().count
    }
}

proof fn lemma_key_count_push(nodes: Seq<NodeProto>, k: int, key: (Seq<char>, Seq<char>))
    requires
        0 <= k < nodes.len(),
    ensures
        key_count(nodes.take(k + 1), key) == key_count(nodes.take(k), key)
            + (if node_key(nodes[k]) == key { 1nat } else { 0nat }),
{
    assert(nodes.take(k + 1).drop_last() =~= nodes.take(k));
}

proof fn lemma_count_sum_update(us: Seq<OperatorUsage>, g: int, u: OperatorUsage)
    requires
        0 <= g < us.len(),
    ensures
        count_sum(us.update(g, u)) == count_sum(us) - us[g].count + u.count,
    decreases us.len(),
{
    let s2 = us.update(g, u);
    if g < us.len() - 1 {
        lemma_count_sum_update(us.drop_last(), g, u);
        assert(s2.drop_last() =~= us.drop_last().update(g, u));
    } else {
        assert(s2.drop_last() =~= us.drop_last());
    }
}

/// Sum of the counts of the groups listed in `order`.
spec fn order_sum(gs: Seq<OperatorUsage>, order: Seq<usize>) -> int
    decreases order.len(),
{
    if order.len() == 0 {
        0
    } else {
        order_sum(gs, order.drop_last()) + gs[order.last() as int].count
    }
}

proof fn lemma_order_sum_add(gs: Seq<OperatorUsage>, a: Seq<usize>, b: Seq<usize>)
    ensures
        order_sum(gs, a + b) == order_sum(gs, a) + order_sum(gs, b),
    decreases b.len(),
{
    if b.len() > 0 {
        lemma_order_sum_add(gs, a, b.drop_last());
        assert((a + b).drop_last() =~= a + b.drop_last());
    } else {
        assert(a + b =~= a);
    }
}

proof fn lemma_order_sum_pair(gs: Seq<OperatorUsage>, a: usize, b: usize)
    ensures
        order_sum(gs, seq![a, b]) == gs[a as int].count + gs[b as int].count,
{
    let s = seq![a, b];
    let s1 = seq![a];
    assert(s.drop_last() =~= s1);
    assert(s1.drop_last() =~= Seq::<usize>::empty());
    assert(order_sum(gs, s1.drop_last()) == 0);
    assert(order_sum(gs, s1) == gs[a as int].count);
    assert(s.last() == b);
}

proof fn lemma_order_sum_swap(gs: Seq<OperatorUsage>, order: Seq<usize>, j: int)
    requires
        0 < j < order.len(),
    ensures
        order_sum(gs, order.update(j - 1, order[j]).update(j, order[j - 1])) == order_sum(gs, order),
{
    let o2 = order.update(j - 1, order[j]).update(j, order[j - 1]);
    let pre = order.take(j - 1);
    let post = order.skip(j + 1);
    let mid = order.subrange(j - 1, j + 1);
    let mid2 = o2.subrange(j - 1, j + 1);
    assert(order =~= pre + mid + post);
    assert(o2 =~= pre + mid2 + post);
    lemma_order_sum_add(gs, pre + mid, post);
    lemma_order_sum_add(gs, pre, mid);
    lemma_order_sum_add(gs, pre + mid2, post);
    lemma_order_sum_add(gs, pre, mid2);
    assert(mid =~= seq![order[j - 1], order[j]]);
    assert(mid2 =~= seq![order[j], order[j - 1]]);
    lemma_order_sum_pair(gs, order[j - 1], order[j]);
    lemma_order_sum_pair(gs, order[j], order[j - 1]);
}

proof fn lemma_order_sum_identity(gs: Seq<OperatorUsage>, n: int)
    requires
        0 <= n <= gs.len(),
        gs.len() <= usize::MAX,
    ensures
        order_sum(gs, Seq::new(n as nat, |i: int| i as usize)) == count_sum(gs.take(n)),
    decreases n,
{
    if n > 0 {
        lemma_order_sum_identity(gs, n - 1);
        assert(Seq::new(n as nat, |i: int| i as usize).drop_last() =~= Seq::new((n - 1) as nat, |i: int| i as usize));
        assert(gs.take(n).drop_last() =~= gs.take(n - 1));
    } else {
        assert(gs.take(0).len() == 0);
    }
}

proof fn lemma_key_count_bound(nodes: Seq<NodeProto>, key: (Seq<char>, Seq<char>))
    ensures
        key_count(nodes, key) <= nodes.len(),
        (forall|p: int| 0 <= p < nodes.len() ==> node_key(#[trigger] nodes[p]) != key) ==> key_count(nodes, key) == 0,
    decreases nodes.len(),
{
    if nodes.len() > 0 {
        lemma_key_count_bound(nodes.drop_last(), key);
        assert(forall|p: int| 0 <= p < nodes.len() - 1 ==> nodes.drop_last()[p] == nodes[p]);
    }
}

/// The operator of a node, as owned strings.
fn node_operator(n: &NodeProto) -> (r: (String, String))
    ensures
        (r.0@, r.1@) == node_key(*n),
{
    let domain = if n.domain.as_str().is_empty() {
        String::from_str("ai.onnx")
    } else {
        n.domain.clone()
    };
    (domain, n.op_type.clone())
}

/// Groups the nodes by operator, in order of first use, with the number of
/// nodes using each.
fn group_operators(nodes: &Vec<NodeProto>) -> (groups: Vec<OperatorUsage>)
    ensures
        groups@.len() <= nodes@.len(),
        forall|g: int| 0 <= g < groups@.len() ==> {
            &&& (#[trigger] groups@[g]).count == key_count(nodes@, usage_key(groups@[g]))
            &&& groups@[g].count >= 1
        },
        forall|g1: int, g2: int| 0 <= g1 < groups@.len() && 0 <= g2 < groups@.len() && g1 != g2
            ==> usage_key(#[trigger] groups@[g1]) != usage_key(#[trigger] groups@[g2]),
        forall|p: int| 0 <= p < nodes@.len() ==> exists|g: int| 0 <= g < groups@.len()
            && usage_key(#[trigger] groups@[g]) == node_key(#[trigger] nodes@[p]),
        forall|g1: int, g2: int| 0 <= g1 < g2 < groups@.len() ==> first_seen_before(
            nodes@, usage_key(#[trigger] groups@[g1]), usage_key(#[trigger] groups@[g2])),
        count_sum(groups@) == nodes@.len(),
{
    let mut groups: Vec<OperatorUsage> = Vec::new();
    let ghost mut firsts: Seq<int> = Seq::empty();
    let mut k: usize = 0;
    while k < nodes.len()
        invariant
            k <= nodes@.len(),
            groups@.len() == firsts.len(),
            groups@.len() <= k,
            forall|g: int| 0 <= g < groups@.len() ==> {
                &&& (#[trigger] groups@[g]).count == key_count(nodes@.take(k as int), usage_key(groups@[g]))
                &&& groups@[g].count >= 1
            },
            forall|g1: int, g2: int| 0 <= g1 < groups@.len() && 0 <= g2 < groups@.len() && g1 != g2
                ==> usage_key(#[trigger] groups@[g1]) != usage_key(#[trigger] groups@[g2]),
            forall|p: int| 0 <= p < k ==> exists|g: int| 0 <= g < groups@.len()
                && usage_key(#[trigger] groups@[g]) == node_key(#[trigger] nodes@[p]),
            forall|g: int| 0 <= g < groups@.len() ==> {
                &&& 0 <= #[trigger] firsts[g] < k
                &&& node_key(nodes@[firsts[g]]) == usage_key(groups@[g])
                &&& forall|q: int| 0 <= q < firsts[g] ==> node_key(#[trigger] nodes@[q]) != usage_key(groups@[g])
            },
            forall|g1: int, g2: int| 0 <= g1 < g2 < groups@.len() ==> #[trigger] firsts[g1] < #[trigger] firsts[g2],
            count_sum(groups@) == k,
        decreases nodes@.len() - k,
    {
        let (domain, name) = node_operator(&nodes[k]);
        let ghost key = node_key(nodes@[k as int]);
        let ghost old_groups = groups@;
        let mut g: usize = 0;
        let mut found = false;
        while g < groups.len() && !found
            invariant
                g <= groups@.len(),
                (domain@, name@) == key,
                !found ==> forall|h: int| 0 <= h < g ==> usage_key(#[trigger] groups@[h]) != key,
                found ==> g < groups@.len() && usage_key(groups@[g as int]) == key,
            decreases groups@.len() - g + (if found { 0int } else { 1int }),
        {
            if groups[g].domain == domain && groups[g].name == name {
                found = true;
            } else {
                g = g + 1;
            }
        }
        if found {
            proof {
                lemma_key_count_bound(nodes@.take(k as int), key);
                lemma_key_count_push(nodes@, k as int, key);
                lemma_count_sum_update(groups@, g as int, OperatorUsage {
                    domain: groups@[g as int].domain,
                    name: groups@[g as int].name,
                    count: (groups@[g as int].count + 1) as usize,
                });
            }
            groups[g].count = groups[g].count + 1;
            assert forall|p: int| 0 <= p < k + 1 implies exists|h: int| 0 <= h < groups@.len()
                && usage_key(#[trigger] groups@[h]) == node_key(#[trigger] nodes@[p]) by {
                if p == k {
                    assert(usage_key(groups@[g as int]) == node_key(nodes@[p]));
                } else {
                    let h = choose|h: int| 0 <= h < old_groups.len()
                        && usage_key(#[trigger] old_groups[h]) == node_key(#[trigger] nodes@[p]);
                    assert(usage_key(groups@[h]) == usage_key(old_groups[h]));
                }
            }
        } else {
            proof {
                assert forall|q: int| 0 <= q < k implies node_key(#[trigger] nodes@[q]) != key by {
                    let h = choose|h: int| 0 <= h < groups@.len()
                        && usage_key(#[trigger] groups@[h]) == node_key(#[trigger] nodes@[q]);
                    assert(usage_key(groups@[h]) != key);
                }
                assert forall|q: int| 0 <= q < nodes@.take(k as int).len()
                    implies node_key(#[trigger] nodes@.take(k as int)[q]) != key by {
                    assert(nodes@.take(k as int)[q] == nodes@[q]);
                }
                lemma_key_count_bound(nodes@.take(k as int), key);
                lemma_key_count_push(nodes@, k as int, key);
                firsts = firsts.push(k as int);
            }
            groups.push(OperatorUsage { domain, name, count: 1 });
            assert(groups@.drop_last() =~= old_groups);
            assert forall|p: int| 0 <= p < k + 1 implies exists|h: int| 0 <= h < groups@.len()
                && usage_key(#[trigger] groups@[h]) == node_key(#[trigger] nodes@[p]) by {
                if p == k {
                    assert(usage_key(groups@[groups@.len() - 1]) == node_key(nodes@[p]));
                } else {
                    let h = choose|h: int| 0 <= h < old_groups.len()
                        && usage_key(#[trigger] old_groups[h]) == node_key(#[trigger] nodes@[p]);
                    assert(usage_key(groups@[h]) == usage_key(old_groups[h]));
                }
            }
        }
        proof {
            assert forall|h: int| 0 <= h < groups@.len() implies (#[trigger] groups@[h]).count
                == key_count(nodes@.take(k as int + 1), usage_key(groups@[h])) by {
                lemma_key_count_push(nodes@, k as int, usage_key(groups@[h]));
            }
        }
        k = k + 1;
    }
    assert(nodes@.take(nodes@.len() as int) =~= nodes@);
    assert forall|g1: int, g2: int| 0 <= g1 < g2 < groups@.len() implies first_seen_before(
        nodes@, usage_key(#[trigger] groups@[g1]), usage_key(#[trigger] groups@[g2])) by {
        let p = firsts[g1];
        assert(firsts[g1] < firsts[g2]);
        assert(node_key(nodes@[p]) == usage_key(groups@[g1]));
    }
    groups
}

/// Group `g` appears in `order`.
spec fn listed(order: Seq<usize>, g: int) -> bool {
    exists|x: int| 0 <= x < order.len() && #[trigger] order[x] == g
}

/// Group `a` is listed before group `b`: it is used more, or as much and
/// seen first.
spec fn ranked(gs: Seq<OperatorUsage>, a: usize, b: usize) -> bool {
    gs[a as int].count > gs[b as int].count || (gs[a as int].count == gs[b as int].count && a < b)
}

fn ranks_before(gs: &Vec<OperatorUsage>, a: usize, b: usize) -> (r: bool)
    requires
        a < gs@.len(),
        b < gs@.len(),
    ensures
        r == ranked(gs@, a, b),
{
    gs[a].count > gs[b].count || (gs[a].count == gs[b].count && a < b)
}

/// Orders the group indices most used first, ties in group order.
fn rank_groups(gs: &Vec<OperatorUsage>) -> (order: Vec<usize>)
    ensures
        order@.len() == gs@.len(),
        forall|x: int| 0 <= x < order@.len() ==> #[trigger] order@[x] < gs@.len(),
        forall|x: int, y: int| 0 <= x < order@.len() && 0 <= y < order@.len() && x != y
            ==> #[trigger] order@[x] != #[trigger] order@[y],
        forall|g: int| 0 <= g < gs@.len() ==> #[trigger] listed(order@, g),
        forall|x: int, y: int| 0 <= x < y < order@.len() ==> ranked(gs@, #[trigger] order@[x], #[trigger] order@[y]),
        order_sum(gs@, order@) == count_sum(gs@),
{
    let n = gs.len();
    let mut order: Vec<usize> = Vec::new();
    let mut i: usize = 0;
    while i < n
        invariant
            n == gs@.len(),
            i <= n,
            order@ == Seq::new(i as nat, |x: int| x as usize),
        decreases n - i,
    {
        order.push(i);
        assert(order@ =~= Seq::new(i as nat + 1, |x: int| x as usize));
        i = i + 1;
    }
    proof {
        lemma_order_sum_identity(gs@, n as int);
        assert(gs@.take(n as int) =~= gs@);
        assert forall|g: int| 0 <= g < n implies #[trigger] listed(order@, g) by {
            assert(order@[g] == g);
        }
    }
    let mut i: usize = 0;
    while i < n
        invariant
            n == gs@.len(),
            i <= n,
            order@.len() == n,
            forall|x: int| 0 <= x < n ==> #[trigger] order@[x] < n,
            forall|x: int, y: int| 0 <= x < n && 0 <= y < n && x != y ==> #[trigger] order@[x] != #[trigger] order@[y],
            forall|g: int| 0 <= g < n ==> #[trigger] listed(order@, g),
            forall|x: int, y: int| 0 <= x < y < i ==> ranked(gs@, #[trigger] order@[x], #[trigger] order@[y]),
            order_sum(gs@, order@) == count_sum(gs@),
        decreases n - i,
    {
        let mut j: usize = i;
        while j > 0 && ranks_before(gs, order[j], order[j - 1])
            invariant
                n == gs@.len(),
                i < n,
                j <= i,
                order@.len() == n,
                forall|x: int| 0 <= x < n ==> #[trigger] order@[x] < n,
                forall|x: int, y: int| 0 <= x < n && 0 <= y < n && x != y ==> #[trigger] order@[x] != #[trigger] order@[y],
                forall|g: int| 0 <= g < n ==> #[trigger] listed(order@, g),
                forall|x: int, y: int| 0 <= x < y <= i && x != j && y != j ==> ranked(gs@, #[trigger] order@[x], #[trigger] order@[y]),
                forall|y: int| j < y <= i ==> ranked(gs@, order@[j as int], #[trigger] order@[y]),
                order_sum(gs@, order@) == count_sum(gs@),
            decreases j,
        {
            let ghost before = order@;
            let a = order[j - 1];
            let b = order[j];
            order.set(j - 1, b);
            order.set(j, a);
            proof {
                lemma_order_sum_swap(gs@, before, j as int);
                assert(order@ =~= before.update(j - 1, before[j as int]).update(j as int, before[j - 1]));
                assert forall|g: int| 0 <= g < n implies #[trigger] listed(order@, g) by {
                    assert(listed(before, g));
                    let x = choose|x: int| 0 <= x < before.len() && #[trigger] before[x] == g;
                    if x == j {
                        assert(order@[j - 1] == g);
                    } else if x == j - 1 {
                        assert(order@[j as int] == g);
                    } else {
                        assert(order@[x] == g);
                    }
                }
            }
            j = j - 1;
        }
        proof {
            if j > 0 {
                assert(order@[j - 1] != order@[j as int]);
                assert(ranked(gs@, order@[j - 1], order@[j as int]));
            }
        }
        i = i + 1;
    }
    order
}

/// `us` is the operator usage of `nodes`: one entry per operator with the
/// number of nodes using it, most used first, operators used equally often
/// in order of first use; the counts add up to the number of nodes.
pub open spec fn is_operator_usage(nodes: Seq<NodeProto>, us: Seq<OperatorUsage>) -> bool {
    &&& forall|i: int| 0 <= i < us.len() ==> {
        &&& (#[trigger] us[i]).count == key_count(nodes, usage_key(us[i]))
        &&& us[i].count >= 1
    }
    &&& forall|i: int, j: int| 0 <= i < us.len() && 0 <= j < us.len() && i != j
        ==> usage_key(#[trigger] us[i]) != usage_key(#[trigger] us[j])
    &&& forall|p: int| 0 <= p < nodes.len() ==> exists|i: int| 0 <= i < us.len()
        && usage_key(#[trigger] us[i]) == node_key(#[trigger] nodes[p])
    &&& forall|i: int, j: int| 0 <= i < j < us.len() ==> {
        ||| (#[trigger] us[i]).count > (#[trigger] us[j]).count
        ||| (us[i].count == us[j].count && first_seen_before(nodes, usage_key(us[i]), usage_key(us[j])))
    }
    &&& count_sum(us) == nodes.len()
}

/// Operator usage of `nodes` (see `is_operator_usage`).
pub fn operator_usage(nodes: &Vec<NodeProto>) -> (r: Vec<OperatorUsage>)
    ensures
        is_operator_usage(nodes@, r@),
{
    let groups = group_operators(nodes);
    let order = rank_groups(&groups);
    let ghost gs = groups@;
    let mut r: Vec<OperatorUsage> = Vec::new();
    let mut i: usize = 0;
    while i < order.len()
        invariant
            gs == groups@,
            i <= order@.len(),
            order@.len() == gs.len(),
            forall|x: int| 0 <= x < order@.len() ==> #[trigger] order@[x] < gs.len(),
            r@.len() == i,
            forall|x: int| 0 <= x < i ==> usage_key(#[trigger] r@[x]) == usage_key(gs[order@[x] as int])
                && r@[x].count == gs[order@[x] as int].count,
            count_sum(r@) == order_sum(gs, order@.take(i as int)),
        decreases order@.len() - i,
    {
        let g = &groups[order[i]];
        let ghost r0 = r@;
        r.push(OperatorUsage { domain: g.domain.clone(), name: g.name.clone(), count: g.count });
        proof {
            assert(r@.drop_last() =~= r0);
            assert(order@.take(i as int + 1).drop_last() =~= order@.take(i as int));
            assert(order@.take(i as int + 1).last() == order@[i as int]);
            assert(count_sum(r@) == count_sum(r0) + r@.last().count);
        }
        i = i + 1;
    }
    proof {
        assert(order@.take(order@.len() as int) =~= order@);
        assert forall|i: int, j: int| 0 <= i < r@.len() && 0 <= j < r@.len() && i != j
            implies usage_key(#[trigger] r@[i]) != usage_key(#[trigger] r@[j]) by {
            assert(order@[i] != order@[j]);
        }
        assert forall|p: int| 0 <= p < nodes@.len() implies exists|i: int| 0 <= i < r@.len()
            && usage_key(#[trigger] r@[i]) == node_key(#[trigger] nodes@[p]) by {
            let g = choose|g: int| 0 <= g < gs.len() && usage_key(#[trigger] gs[g]) == node_key(#[trigger] nodes@[p]);
            assert(listed(order@, g));
            let x = choose|x: int| 0 <= x < order@.len() && #[trigger] order@[x] == g;
            assert(usage_key(r@[x]) == node_key(nodes@[p]));
        }
        assert forall|i: int, j: int| 0 <= i < j < r@.len() implies {
            ||| (#[trigger] r@[i]).count > (#[trigger] r@[j]).count
            ||| (r@[i].count == r@[j].count && first_seen_before(nodes@, usage_key(r@[i]), usage_key(r@[j])))
        } by {
            assert(ranked(gs, order@[i], order@[j]));
        }
    }
    r
}

} // verus!
