//! Decision trees: the trees grown during training, which split on binned
//! feature values, and the trees kept in a model.
//!
//! The numeric payloads of a node (split thresholds, leaf values, the fraction
//! of examples that reach it) are carried as a type parameter `T`: the tree
//! logic here never computes on them.

use crate::bin_directions::BinDirections;
use vstd::prelude::*;

verus! {

/// Which child of a branch an example goes to.
#[derive(Clone, Copy, Debug, PartialEq, Eq, Structural)]
pub enum SplitDirection {
    Left,
    Right,
}

/// A tree under training, described by a single vector of nodes.
#[derive(Clone, Debug)]
pub struct TrainTree<T> {
    pub nodes: Vec<TrainNode<T>>,
}

#[derive(Clone, Debug)]
pub enum TrainNode<T> {
    Branch(TrainBranchNode<T>),
    Leaf(TrainLeafNode<T>),
}

#[derive(Clone, Debug)]
pub struct TrainBranchNode<T> {
    /// The index in the tree's nodes of this node's left child.
    pub left_child_index: Option<usize>,
    /// The index in the tree's nodes of this node's right child.
    pub right_child_index: Option<usize>,
    /// The best split for this node.
    pub split: TrainBranchSplit<T>,
    /// Whether examples whose feature value is missing go to the left subtree or the right.
    pub missing_values_direction: SplitDirection,
    /// The fraction of the training examples that reach this node.
    pub examples_fraction: T,
}

#[derive(Clone, Debug)]
pub enum TrainBranchSplit<T> {
    Continuous(TrainBranchSplitContinuous<T>),
    Discrete(TrainBranchSplitDiscrete),
}

#[derive(Clone, Debug)]
pub struct TrainBranchSplitContinuous<T> {
    pub feature_index: usize,
    pub split_value: T,
    /// Examples whose binned value is at most this bin go left.
    pub bin_index: u8,
    pub invalid_values_direction: SplitDirection,
}

#[derive(Clone, Debug)]
pub struct TrainBranchSplitDiscrete {
    pub feature_index: usize,
    pub directions: BinDirections,
    pub invalid_values_direction: SplitDirection,
}

#[derive(Clone, Debug)]
pub struct TrainLeafNode<T> {
    pub value: T,
    pub examples_fraction: T,
}

/// A tree of a trained model.
#[derive(Debug)]
pub struct Tree<T> {
    pub nodes: Vec<Node<T>>,
}

#[derive(Debug)]
pub enum Node<T> {
    Branch(BranchNode<T>),
    Leaf(LeafNode<T>),
}

#[derive(Debug)]
pub struct BranchNode<T> {
    pub left_child_index: usize,
    pub right_child_index: usize,
    pub split: BranchSplit<T>,
    pub examples_fraction: T,
}

#[derive(Debug)]
pub enum BranchSplit<T> {
    Continuous(BranchSplitContinuous<T>),
    Discrete(BranchSplitDiscrete),
}

#[derive(Debug)]
pub struct BranchSplitContinuous<T> {
    pub feature_index: usize,
    pub split_value: T,
    pub invalid_values_direction: SplitDirection,
}

#[derive(Debug)]
pub struct BranchSplitDiscrete {
    pub feature_index: usize,
    pub directions: BinDirections,
}

#[derive(Debug)]
pub struct LeafNode<T> {
    pub value: T,
    pub examples_fraction: T,
}

/// The node that a binned example goes to from the branch `node`, or `None`
/// when the step cannot be taken (a missing child, a feature index past the
/// end of the example, or a category with no direction).
pub open spec fn train_branch_step<T>(node: TrainBranchNode<T>, features: Seq<u8>) -> Option<int> {
    match node.split {
        TrainBranchSplit::Continuous(s) => {
            if s.feature_index >= features.len() {
                None
            } else if features[s.feature_index as int] <= s.bin_index {
                match node.left_child_index {
                    Some(c) => Some(c as int),
                    None => None,
                }
            } else {
                match node.right_child_index {
                    Some(c) => Some(c as int),
                    None => None,
                }
            }
        },
        TrainBranchSplit::Discrete(s) => {
            if s.feature_index >= features.len() {
                None
            } else {
                let bin = features[s.feature_index as int];
                if bin >= s.directions.n {
                    None
                } else if !s.directions.direction(bin) {
                    match node.left_child_index {
                        Some(c) => Some(c as int),
                        None => None,
                    }
                } else {
                    match node.right_child_index {
                        Some(c) => Some(c as int),
                        None => None,
                    }
                }
            }
        },
    }
}

/// The leaf that a binned example reaches from node `i` in at most `fuel` steps,
/// or `None` when no leaf is reached that way.
pub open spec fn train_leaf_from<T>(nodes: Seq<TrainNode<T>>, features: Seq<u8>, i: int, fuel: nat) -> Option<int>
    decreases fuel,
{
    if !(0 <= i < nodes.len()) {
        None
    } else {
        match nodes[i] {
            TrainNode::Leaf(_) => Some(i),
            TrainNode::Branch(b) => {
                if fuel == 0 {
                    None
                } else {
                    match train_branch_step(b, features) {
                        Some(c) => train_leaf_from(nodes, features, c, (fuel - 1) as nat),
                        None => None,
                    }
                }
            },
        }
    }
}

/// The leaf that a binned example reaches from the root, when walking down the
/// tree reaches one: a walk that reaches a leaf visits each node at most once,
/// so it takes fewer steps than there are nodes.
pub open spec fn train_leaf<T>(nodes: Seq<TrainNode<T>>, features: Seq<u8>) -> Option<int> {
    train_leaf_from(nodes, features, 0, nodes.len())
}

impl<T: Copy> TrainTree<T> {
    /// The value of the leaf that the binned example `features` reaches.
    pub fn predict(&self, features: &[u8]) -> (value: T)
        requires
            train_leaf(self.nodes@, features@) is Some,
        ensures
            self.nodes@[train_leaf(self.nodes@, features@)->0] matches TrainNode::Leaf(leaf)
                && value == leaf.value,
    {
        let mut node_index: usize = 0;
        let ghost mut fuel: nat = self.nodes@.len();
        loop
            invariant
                train_leaf_from(self.nodes@, features@, node_index as int, fuel)
                    == train_leaf(self.nodes@, features@),
                train_leaf(self.nodes@, features@) is Some,
            decreases fuel,
        {
            match &self.nodes[node_index] {
                TrainNode::Branch(branch) => {
                    let next = match &branch.split {
                        TrainBranchSplit::Continuous(split) => {
                            if features[split.feature_index] <= split.bin_index {
                                branch.left_child_index.unwrap()
                            } else {
                                branch.right_child_index.unwrap()
                            }
                        },
                        TrainBranchSplit::Discrete(split) => {
                            let bin_index = features[split.feature_index];
                            if !split.directions.get(bin_index).unwrap() {
                                branch.left_child_index.unwrap()
                            } else {
                                branch.right_child_index.unwrap()
                            }
                        },
                    };
                    proof {
                        fuel = (fuel - 1) as nat;
                    }
                    node_index = next;
                },
                TrainNode::Leaf(leaf) => {
                    return leaf.value;
                },
            }
        }
    }
}

impl<T> TrainNode<T> {
    /// The branch, when the node is a branch, to change in place.
    pub fn as_branch_mut(&mut self) -> (r: Option<&mut TrainBranchNode<T>>)
        ensures
            match *old(self) {
                TrainNode::Branch(b) => r matches Some(x) && *x == b && *final(self) == TrainNode::Branch(*final(x)),
                TrainNode::Leaf(_) => r is None && *final(self) == *old(self),
            },
    {
        match self {
            TrainNode::Branch(s) => Some(s),
            _ => None,
        }
    }
}

/// Whether every branch of a tree under training has both of its children.
pub open spec fn train_tree_is_complete<T>(nodes: Seq<TrainNode<T>>) -> bool {
    forall|i: int|
        0 <= i < nodes.len() ==> (#[trigger] nodes[i] matches TrainNode::Branch(b) ==> (
        b.left_child_index is Some && b.right_child_index is Some))
}

/// The model node that a complete node under training becomes.
pub open spec fn spec_node_from_train_node<T>(node: TrainNode<T>) -> Node<T> {
    match node {
        TrainNode::Branch(b) => Node::Branch(
            BranchNode {
                left_child_index: b.left_child_index->0,
                right_child_index: b.right_child_index->0,
                split: match b.split {
                    TrainBranchSplit::Continuous(s) => BranchSplit::Continuous(
                        BranchSplitContinuous {
                            feature_index: s.feature_index,
                            split_value: s.split_value,
                            invalid_values_direction: s.invalid_values_direction,
                        },
                    ),
                    TrainBranchSplit::Discrete(s) => BranchSplit::Discrete(
                        BranchSplitDiscrete { feature_index: s.feature_index, directions: s.directions },
                    ),
                },
                examples_fraction: b.examples_fraction,
            },
        ),
        TrainNode::Leaf(l) => Node::Leaf(LeafNode { value: l.value, examples_fraction: l.examples_fraction }),
    }
}

impl<T> Node<T> {
    /// Converts a node under training whose children are both known.
    pub fn from_train_node(node: TrainNode<T>) -> (r: Node<T>)
        requires
            node matches TrainNode::Branch(b) ==> (b.left_child_index is Some && b.right_child_index is Some),
        ensures
            r == spec_node_from_train_node(node),
    {
        match node {
            TrainNode::Branch(b) => {
                let TrainBranchNode { left_child_index, right_child_index, split, examples_fraction, .. } = b;
                let split = match split {
                    TrainBranchSplit::Continuous(s) => {
                        let TrainBranchSplitContinuous { feature_index, split_value, invalid_values_direction, .. } = s;
                        BranchSplit::Continuous(
                            BranchSplitContinuous { feature_index, split_value, invalid_values_direction },
                        )
                    },
                    TrainBranchSplit::Discrete(s) => {
                        let TrainBranchSplitDiscrete { feature_index, directions, .. } = s;
                        BranchSplit::Discrete(BranchSplitDiscrete { feature_index, directions })
                    },
                };
                Node::Branch(
                    BranchNode {
                        left_child_index: left_child_index.unwrap(),
                        right_child_index: right_child_index.unwrap(),
                        split,
                        examples_fraction,
                    },
                )
            },
            TrainNode::Leaf(l) => {
                let TrainLeafNode { value, examples_fraction } = l;
                Node::Leaf(LeafNode { value, examples_fraction })
            },
        }
    }

    /// The fraction of the training examples that reach this node.
    pub fn examples_fraction(&self) -> (r: &T)
        ensures
            r == match self {
                Node::Leaf(l) => &l.examples_fraction,
                Node::Branch(b) => &b.examples_fraction,
            },
    {
        match self {
            Node::Leaf(l) => &l.examples_fraction,
            Node::Branch(b) => &b.examples_fraction,
        }
    }
}

impl<T> BranchSplit<T> {
    /// The index of the feature that the split reads.
    pub fn feature_index(&self) -> (r: usize)
        ensures
            r == match self {
                BranchSplit::Continuous(s) => s.feature_index,
                BranchSplit::Discrete(s) => s.feature_index,
            },
    {
        match self {
            BranchSplit::Continuous(s) => s.feature_index,
            BranchSplit::Discrete(s) => s.feature_index,
        }
    }
}

impl<T> Tree<T> {
    /// Converts a tree under training whose branches all have both of their children.
    pub fn from_train_tree(tree: TrainTree<T>) -> (r: Tree<T>)
        requires
            train_tree_is_complete(tree.nodes@),
        ensures
            r.nodes@.len() == tree.nodes@.len(),
            forall|i: int|
                0 <= i < tree.nodes@.len() ==> #[trigger] r.nodes@[i] == spec_node_from_train_node(
                    tree.nodes@[i],
                ),
    {
        let mut source = tree.nodes;
        let ghost initial = source@;
        let mut reversed: Vec<Node<T>> = Vec::new();
        let n = source.len();
        while source.len() > 0
            invariant
                source@.len() + reversed@.len() == n,
                n == initial.len(),
                train_tree_is_complete(initial),
                source@ == initial.subrange(0, source@.len() as int),
                forall|k: int|
                    0 <= k < reversed@.len() ==> #[trigger] reversed@[k] == spec_node_from_train_node(
                        initial[n - 1 - k],
                    ),
            decreases source@.len(),
        {
            let node = source.pop().unwrap();
            let ghost idx = source@.len() as int;
            assert(node == initial[idx]);
            assert(initial[idx] matches TrainNode::Branch(b) ==> (b.left_child_index is Some
                && b.right_child_index is Some));
            reversed.push(Node::from_train_node(node));
        }
        let mut nodes: Vec<Node<T>> = Vec::new();
        while reversed.len() > 0
            invariant
                nodes@.len() + reversed@.len() == n,
                forall|k: int|
                    0 <= k < reversed@.len() ==> #[trigger] reversed@[k] == spec_node_from_train_node(
                        initial[n - 1 - k],
                    ),
                forall|k: int|
                    0 <= k < nodes@.len() ==> #[trigger] nodes@[k] == spec_node_from_train_node(
                        initial[k],
                    ),
            decreases reversed@.len(),
        {
            let node = reversed.pop().unwrap();
            nodes.push(node);
        }
        Tree { nodes }
    }
}

/// The feature that a node splits on: that of its split for a branch, none for a leaf.
pub open spec fn split_feature<T>(node: TrainNode<T>) -> Option<int> {
    match node {
        TrainNode::Branch(b) => match b.split {
            TrainBranchSplit::Continuous(s) => Some(s.feature_index as int),
            TrainBranchSplit::Discrete(s) => Some(s.feature_index as int),
        },
        TrainNode::Leaf(_) => None,
    }
}

/// The number of nodes among `nodes` that split on feature `f`.
pub open spec fn node_split_count<T>(nodes: Seq<TrainNode<T>>, f: int) -> nat
    decreases nodes.len(),
{
    if nodes.len() == 0 {
        0
    } else {
        node_split_count(nodes.drop_last(), f) + if split_feature(nodes.last()) == Some(f) {
            1nat
        } else {
            0nat
        }
    }
}

/// The number of nodes of the trees `trees` that split on feature `f`.
pub open spec fn tree_split_count<T>(trees: Seq<TrainTree<T>>, f: int) -> nat
    decreases trees.len(),
{
    if trees.len() == 0 {
        0
    } else {
        tree_split_count(trees.drop_last(), f) + node_split_count(trees.last().nodes@, f)
    }
}

/// The number of nodes of the trees `trees`.
pub open spec fn total_nodes<T>(trees: Seq<TrainTree<T>>) -> nat
    decreases trees.len(),
{
    if trees.len() == 0 {
        0
    } else {
        total_nodes(trees.drop_last()) + trees.last().nodes@.len()
    }
}

/// Whether every node of the trees `trees` that splits, splits on a feature below `n`.
pub open spec fn splits_below<T>(trees: Seq<TrainTree<T>>, n: int) -> bool {
    forall|t: int, i: int|
        0 <= t < trees.len() && 0 <= i < trees[t].nodes@.len() ==> match split_feature(#[trigger] trees[t].nodes@[i]) {
            Some(f) => f < n,
            None => true,
        }
}

proof fn lemma_total_nodes_take<T>(trees: Seq<TrainTree<T>>, t: int)
    requires
        0 <= t <= trees.len(),
    ensures
        total_nodes(trees.take(t)) <= total_nodes(trees),
        t < trees.len() ==> total_nodes(trees.take(t + 1)) == total_nodes(trees.take(t)) + trees[t].nodes@.len(),
    decreases trees.len() - t,
{
    if t < trees.len() {
        assert(trees.take(t + 1).drop_last() =~= trees.take(t));
        lemma_total_nodes_take(trees, t + 1);
    } else {
        assert(trees.take(t) =~= trees);
    }
}

/// For each feature below `n_features`, the number of nodes of the trees that split
/// on it: the counts from which feature importances are computed.
pub fn count_splits_by_feature<T>(trees: &[TrainTree<T>], n_features: usize) -> (r: Vec<u64>)
    requires
        splits_below(trees@, n_features as int),
        total_nodes(trees@) <= u64::MAX,
    ensures
        r@.len() == n_features,
        forall|f: int| 0 <= f < n_features ==> #[trigger] r@[f] == tree_split_count(trees@, f),
{
    let mut counts: Vec<u64> = Vec::new();
    let mut f: usize = 0;
    while f < n_features
        invariant
            f <= n_features,
            counts@.len() == f,
            forall|g: int| 0 <= g < f ==> #[trigger] counts@[g] == 0,
        decreases n_features - f,
    {
        counts.push(0);
        f = f + 1;
    }
    assert(trees@.take(0) =~= Seq::<TrainTree<T>>::empty());
    let mut t: usize = 0;
    while t < trees.len()
        invariant
            t <= trees@.len(),
            splits_below(trees@, n_features as int),
            total_nodes(trees@) <= u64::MAX,
            counts@.len() == n_features,
            forall|g: int| 0 <= g < n_features ==> #[trigger] counts@[g] == tree_split_count(trees@.take(t as int), g),
            forall|g: int| 0 <= g < n_features ==> #[trigger] counts@[g] <= total_nodes(trees@.take(t as int)),
        decreases trees@.len() - t,
    {
        let nodes = &trees[t].nodes;
        proof {
            lemma_total_nodes_take(trees@, t as int);
            lemma_total_nodes_take(trees@, t + 1);
            assert(nodes@.take(0) =~= Seq::<TrainNode<T>>::empty());
        }
        let ghost before = counts@;
        let mut i: usize = 0;
        while i < nodes.len()
            invariant
                t < trees@.len(),
                *nodes == trees@[t as int].nodes,
                i <= nodes@.len(),
                splits_below(trees@, n_features as int),
                total_nodes(trees@.take(t as int)) + nodes@.len() <= u64::MAX,
                counts@.len() == n_features,
                forall|g: int| 0 <= g < n_features ==> #[trigger] counts@[g] == before[g] + node_split_count(nodes@.take(i as int), g),
                forall|g: int| 0 <= g < n_features ==> #[trigger] counts@[g] <= total_nodes(trees@.take(t as int)) + i,
                forall|g: int| 0 <= g < n_features ==> #[trigger] before[g] <= total_nodes(trees@.take(t as int)),
            decreases nodes@.len() - i,
        {
            let feature = match &nodes[i] {
                TrainNode::Branch(b) => match &b.split {
                    TrainBranchSplit::Continuous(s) => Some(s.feature_index),
                    TrainBranchSplit::Discrete(s) => Some(s.feature_index),
                },
                TrainNode::Leaf(_) => None,
            };
            proof {
                assert(nodes@.take(i + 1).drop_last() =~= nodes@.take(i as int));
                assert(nodes@.take(i + 1).last() == nodes@[i as int]);
                assert(feature == match split_feature(trees@[t as int].nodes@[i as int]) {
                    Some(f) => Some(f as usize),
                    None => None::<usize>,
                });
            }
            match feature {
                Some(fi) => {
                    let c = counts[fi];
                    counts.set(fi, c + 1);
                },
                None => {},
            }
            i = i + 1;
        }
        proof {
            assert(nodes@.take(nodes@.len() as int) =~= nodes@);
            assert(trees@.take(t + 1).drop_last() =~= trees@.take(t as int));
            assert(trees@.take(t + 1).last() == trees@[t as int]);
        }
        t = t + 1;
    }
    assert(trees@.take(t as int) =~= trees@);
    counts
}


/// A discrete split sends an example whose category `b` it has a direction for to
/// the right child exactly when that direction is set, for every category, the
/// invalid one (0) included; a continuous split sends it left exactly when its bin
/// is at most the split's bin. The walk to a leaf goes on from that child.
pub proof fn lemma_walk_follows_split<T>(nodes: Seq<TrainNode<T>>, features: Seq<u8>, i: int, fuel: nat)
    requires
        0 <= i < nodes.len(),
        nodes[i] is Branch,
        fuel > 0,
        nodes[i]->Branch_0.left_child_index is Some,
        nodes[i]->Branch_0.right_child_index is Some,
        match nodes[i]->Branch_0.split {
            TrainBranchSplit::Continuous(s) => s.feature_index < features.len(),
            TrainBranchSplit::Discrete(s) => s.feature_index < features.len() && features[s.feature_index as int] < s.directions.n,
        },
    ensures
        ({
            let b = nodes[i]->Branch_0;
            let left = b.left_child_index->0 as int;
            let right = b.right_child_index->0 as int;
            let child = match b.split {
                TrainBranchSplit::Continuous(s) => if features[s.feature_index as int] <= s.bin_index {
                    left
                } else {
                    right
                },
                TrainBranchSplit::Discrete(s) => if s.directions.direction(features[s.feature_index as int]) {
                    right
                } else {
                    left
                },
            };
            train_leaf_from(nodes, features, i, fuel) == train_leaf_from(nodes, features, child, (fuel - 1) as nat)
        }),
{
}

/// Converting a node under training keeps every field it carries over: the children,
/// the fraction of examples, and the split's feature, value, direction for invalid
/// values and category directions, each the same as the trained node's own.
pub proof fn lemma_from_train_node_keeps_fields<T>(node: TrainNode<T>)
    ensures
        match (node, spec_node_from_train_node(node)) {
            (TrainNode::Branch(b), Node::Branch(m)) => {
                &&& b.left_child_index matches Some(l) ==> m.left_child_index == l
                &&& b.right_child_index matches Some(r) ==> m.right_child_index == r
                &&& m.examples_fraction == b.examples_fraction
                &&& match (b.split, m.split) {
                    (TrainBranchSplit::Continuous(s), BranchSplit::Continuous(t)) => {
                        &&& t.feature_index == s.feature_index
                        &&& t.split_value == s.split_value
                        &&& t.invalid_values_direction == s.invalid_values_direction
                    },
                    (TrainBranchSplit::Discrete(s), BranchSplit::Discrete(t)) => {
                        &&& t.feature_index == s.feature_index
                        &&& t.directions == s.directions
                    },
                    _ => false,
                }
            },
            (TrainNode::Leaf(l), Node::Leaf(m)) => m.value == l.value && m.examples_fraction == l.examples_fraction,
            _ => false,
        },
{
}

} // verus!
