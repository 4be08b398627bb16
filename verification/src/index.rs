use vstd::prelude::*;

verus! {

/// The elements of a (possibly nested) array member, each with its indices:
/// a node holds one subtree per index of its dimension, in order.
#[derive(Debug, PartialEq, Eq)]
pub enum IndexTree {
    Leaf(Vec<usize>),
    Node(Vec<IndexTree>),
}

/// Whether `t` lists the elements of an array of dimensions `dims`, whose
/// indices all start with `prefix`: with no dimension left it is the leaf
/// `prefix`; else it has one subtree per index `i` of the first dimension, in
/// order, listing the rest under `prefix` followed by `i`.
pub open spec fn index_tree_ok(t: IndexTree, dims: Seq<usize>, prefix: Seq<usize>) -> bool
    decreases dims.len(),
{
    if dims.len() == 0 {
        t matches IndexTree::Leaf(p) && p@ == prefix
    } else {
        &&& t matches IndexTree::Node(cs)
        &&& t->Node_0@.len() == dims[0]
        &&& forall|i: int|
            0 <= i < dims[0] ==> index_tree_ok(#[trigger] t->Node_0@[i], dims.drop_first(), prefix.push(i as usize))
    }
}

fn build(dims: &Vec<usize>, lvl: usize, prefix: &Vec<usize>) -> (r: IndexTree)
    requires
        lvl <= dims@.len(),
    ensures
        index_tree_ok(r, dims@.skip(lvl as int), prefix@),
    decreases dims@.len() - lvl,
{
    if lvl == dims.len() {
        let mut p: Vec<usize> = Vec::new();
        let mut k: usize = 0;
        while k < prefix.len()
            invariant
                k <= prefix@.len(),
                p@ == prefix@.take(k as int),
            decreases prefix.len() - k,
        {
            p.push(prefix[k]);
            k = k + 1;
            assert(p@ =~= prefix@.take(k as int));
        }
        assert(prefix@.take(k as int) =~= prefix@);
        return IndexTree::Leaf(p);
    }
    let n = dims[lvl];
    let ghost rest = dims@.skip(lvl as int);
    assert(rest[0] == n);
    assert(rest.drop_first() =~= dims@.skip(lvl + 1));
    let mut children: Vec<IndexTree> = Vec::new();
    let mut i: usize = 0;
    while i < n
        invariant
            i <= n,
            lvl < dims@.len(),
            dims@.len() <= usize::MAX,
            n == dims@[lvl as int],
            children@.len() == i,
            forall|k: int|
                0 <= k < i ==> index_tree_ok(#[trigger] children@[k], dims@.skip(lvl + 1), prefix@.push(k as usize)),
        decreases n - i,
    {
        let mut p: Vec<usize> = Vec::new();
        let mut k: usize = 0;
        while k < prefix.len()
            invariant
                k <= prefix@.len(),
                p@ == prefix@.take(k as int),
            decreases prefix.len() - k,
        {
            p.push(prefix[k]);
            k = k + 1;
            assert(p@ =~= prefix@.take(k as int));
        }
        assert(prefix@.take(k as int) =~= prefix@);
        p.push(i);
        let child = build(dims, lvl + 1, &p);
        children.push(child);
        i = i + 1;
    }
    let t = IndexTree::Node(children);
    assert(index_tree_ok(t, rest, prefix@));
    t
}

/// The elements of a member with the given array dimensions, each with its
/// indices; a scalar member is one element with no index.
pub fn array_index(arr: &Option<Vec<usize>>) -> (r: IndexTree)
    ensures
        index_tree_ok(r, crate::cs::dims_of(crate::model::opt_dims_v(*arr)), Seq::empty()),
{
    match arr {
        None => IndexTree::Leaf(Vec::new()),
        Some(d) => {
            assert(d@.skip(0) =~= d@);
            build(d, 0, &Vec::new())
        },
    }
}

} // verus!
