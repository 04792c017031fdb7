//! The vertex_weights element of a skin: for each vertex a run of pairs of
//! joint index and weight index.

use crate::collada::error::{Error, ErrorKind, Stage};
use crate::collada::util::{
    child_at, children_or_none, fault, has_tag, parse_array, required, required_attribute,
    required_unsigned, unsigned_attribute,
};
use crate::text::{list_value, same_text};
use crate::xml_tree::node::NodeModel;
use crate::xml_tree::tree::XmlTree;
use vstd::prelude::*;

verus! {

/// The model of a vertex_weights element: its declared vertex count, the
/// slots of the joint and the weight within a pair, the number of pairs of
/// each vertex, and the flat array of pairs.
pub struct VertexWeightsModel {
    pub count: usize,
    pub joints: usize,
    pub weights: usize,
    pub vertex_weight_count: Seq<usize>,
    pub indices: Seq<usize>,
}

/// The sum of the first `n` entries of `counts`.
pub open spec fn prefix_sum(counts: Seq<usize>, n: int) -> int
    decreases n,
{
    if n <= 0 {
        0
    } else {
        prefix_sum(counts, n - 1) + counts[n - 1]
    }
}

/// The prefix sums grow with the prefix.
pub proof fn lemma_prefix_sum_grows(counts: Seq<usize>, i: int, n: int)
    requires
        0 <= i <= n,
    ensures
        0 <= prefix_sum(counts, i) <= prefix_sum(counts, n),
    decreases n,
{
    if i < n {
        lemma_prefix_sum_grows(counts, i, n - 1);
    } else if n > 0 {
        lemma_prefix_sum_grows(counts, i - 1, n - 1);
    }
}

impl VertexWeightsModel {
    /// Where the pairs of vertex `n` start in the flat array: twice the
    /// number of pairs of the vertices before it.
    pub open spec fn start(self, n: int) -> int {
        2 * prefix_sum(self.vertex_weight_count, n)
    }

    /// Whether vertex `n` is declared and its pairs lie within the flat
    /// array.
    pub open spec fn reaches(self, n: int) -> bool {
        &&& 0 <= n < self.count
        &&& n < self.vertex_weight_count.len()
        &&& self.start(n) + 2 * self.vertex_weight_count[n] <= self.indices.len()
    }

    /// The pairs of vertex `n`, each as its two indices in array order.
    pub open spec fn pairs(self, n: int) -> Option<Seq<(usize, usize)>> {
        if self.reaches(n) {
            Some(
                Seq::new(
                    self.vertex_weight_count[n] as nat,
                    |k: int|
                        (self.indices[self.start(n) + 2 * k], self.indices[self.start(n) + 2 * k + 1]),
                ),
            )
        } else {
            None
        }
    }
}

/// What is found in a vertex_weights element so far.
pub struct WeightParts {
    pub joints: Option<usize>,
    pub weights: Option<usize>,
    pub vertex_weight_count: Seq<usize>,
    pub indices: Seq<usize>,
}

/// A literal list of unsigned decimals in the text of `child`.
pub open spec fn index_list(child: NodeModel) -> Result<Seq<usize>, Error> {
    match child.characters() {
        None => Err(fault(ErrorKind::Structure, Stage::VertexWeights)),
        Some(list) => match list_value::<usize>(list) {
            None => Err(fault(ErrorKind::Literal, Stage::Array)),
            Some(read) => Ok(read),
        },
    }
}

/// The parts among `children` from position `from` on, added to those
/// found before. An `input` child must have a semantic; `JOINT` and
/// `WEIGHT` inputs must have an offset that is an unsigned decimal. The
/// `vcount` and `v` children hold lists of unsigned decimals.
pub open spec fn weight_parts_from(
    tree: Seq<NodeModel>,
    children: Seq<usize>,
    from: int,
    parts: WeightParts,
) -> Result<WeightParts, Error>
    decreases children.len() - from,
{
    if from < 0 || from >= children.len() {
        Ok(parts)
    } else {
        let child = tree[children[from] as int];
        if child.name == "input"@ {
            match required(child, "semantic", Stage::VertexWeights) {
                Err(error) => Err(error),
                Ok(semantic) => if semantic == "JOINT"@ || semantic == "WEIGHT"@ {
                    match required_unsigned(child, "offset", Stage::VertexWeights) {
                        Err(error) => Err(error),
                        Ok(offset) => weight_parts_from(
                            tree,
                            children,
                            from + 1,
                            if semantic == "JOINT"@ {
                                WeightParts { joints: Some(offset), ..parts }
                            } else {
                                WeightParts { weights: Some(offset), ..parts }
                            },
                        ),
                    }
                } else {
                    weight_parts_from(tree, children, from + 1, parts)
                },
            }
        } else if child.name == "vcount"@ {
            match index_list(child) {
                Err(error) => Err(error),
                Ok(read) => weight_parts_from(
                    tree,
                    children,
                    from + 1,
                    WeightParts { vertex_weight_count: read, ..parts },
                ),
            }
        } else if child.name == "v"@ {
            match index_list(child) {
                Err(error) => Err(error),
                Ok(read) => weight_parts_from(
                    tree,
                    children,
                    from + 1,
                    WeightParts { indices: read, ..parts },
                ),
            }
        } else {
            weight_parts_from(tree, children, from + 1, parts)
        }
    }
}

/// What the element at `node` decodes to as a vertex_weights element: its
/// tag must be `vertex_weights`, `count` must hold an unsigned decimal, the
/// joint and the weight input must be there, and their slots must be 0 and
/// 1, one each.
pub open spec fn vertex_weights_model(tree: Seq<NodeModel>, node: int) -> Result<
    VertexWeightsModel,
    Error,
> {
    if !(0 <= node < tree.len()) || tree[node].name != "vertex_weights"@ {
        Err(fault(ErrorKind::Structure, Stage::VertexWeights))
    } else {
        match required_unsigned(tree[node], "count", Stage::VertexWeights) {
            Err(error) => Err(error),
            Ok(count) => match weight_parts_from(
                tree,
                tree[node].child_list(),
                0,
                WeightParts {
                    joints: None,
                    weights: None,
                    vertex_weight_count: Seq::empty(),
                    indices: Seq::empty(),
                },
            ) {
                Err(error) => Err(error),
                Ok(parts) => match (parts.joints, parts.weights) {
                    (Some(joints), Some(weights)) => if (joints == 0 && weights == 1) || (joints
                        == 1 && weights == 0) {
                        Ok(
                            VertexWeightsModel {
                                count,
                                joints,
                                weights,
                                vertex_weight_count: parts.vertex_weight_count,
                                indices: parts.indices,
                            },
                        )
                    } else {
                        Err(fault(ErrorKind::Consistency, Stage::VertexWeights))
                    },
                    _ => Err(fault(ErrorKind::Structure, Stage::VertexWeights)),
                },
            },
        }
    }
}

/// The vertex_weights element of a skin. The slots of joint and weight are
/// always 0 and 1, one each.
#[derive(Debug)]
pub struct VertexWeights {
    count: usize,
    joints: usize,
    weights: usize,
    vertex_weight_count: Vec<usize>,
    indices: Vec<usize>,
}

impl View for VertexWeights {
    type V = VertexWeightsModel;

    closed spec fn view(&self) -> VertexWeightsModel {
        VertexWeightsModel {
            count: self.count,
            joints: self.joints,
            weights: self.weights,
            vertex_weight_count: self.vertex_weight_count@,
            indices: self.indices@,
        }
    }
}

/// Reads the list of unsigned decimals in the text of `child`.
fn read_index_list(child: &crate::xml_tree::node::XmlNode) -> (read: Result<Vec<usize>, Error>)
    ensures
        match read {
            Ok(list) => index_list(child@) == Ok::<Seq<usize>, Error>(list@),
            Err(error) => index_list(child@) == Err::<Seq<usize>, Error>(error),
        },
{
    let list = match child.get_characters() {
        Some(list) => list,
        None => {
            return Err(Error::new(ErrorKind::Structure, Stage::VertexWeights));
        },
    };
    match parse_array::<usize>(list) {
        Ok(read) => Ok(read),
        Err(_) => Err(Error::new(ErrorKind::Literal, Stage::Array)),
    }
}

impl VertexWeights {
    /// What holds of every value: joint and weight have the slots 0 and 1.
    #[verifier::type_invariant]
    pub open spec fn well_formed(&self) -> bool {
        (self@.joints == 0 && self@.weights == 1) || (self@.joints == 1 && self@.weights == 0)
    }

    /// The vertex_weights element with the given parts, if the slots of
    /// joint and weight are 0 and 1, one each.
    pub fn new(
        count: usize,
        joints: usize,
        weights: usize,
        vertex_weight_count: Vec<usize>,
        indices: Vec<usize>,
    ) -> (made: Option<VertexWeights>)
        ensures
            made is Some <==> ((joints == 0 && weights == 1) || (joints == 1 && weights == 0)),
            made matches Some(list) ==> list@ == (VertexWeightsModel {
                count,
                joints,
                weights,
                vertex_weight_count: vertex_weight_count@,
                indices: indices@,
            }),
    {
        if (joints == 0 && weights == 1) || (joints == 1 && weights == 0) {
            Some(VertexWeights { count, joints, weights, vertex_weight_count, indices })
        } else {
            None
        }
    }

    /// The declared number of vertices.
    pub fn count(&self) -> (count: usize)
        ensures
            count == self@.count,
    {
        self.count
    }

    /// The slot of the weight index within a pair.
    pub fn get_weights_offset(&self) -> (slot: usize)
        ensures
            slot == self@.weights,
            slot < 2,
    {
        proof {
            use_type_invariant(self);
        }
        self.weights
    }

    /// The slot of the joint index within a pair.
    pub fn get_joints_offset(&self) -> (slot: usize)
        ensures
            slot == self@.joints,
            slot < 2,
    {
        proof {
            use_type_invariant(self);
        }
        self.joints
    }

    /// The pairs of vertex `n`, or `None` where the vertex is not declared
    /// or its pairs do not lie within the flat array.
    pub fn get_nth_indices(&self, n: usize) -> (pairs: Option<Vec<[usize; 2]>>)
        ensures
            pairs is Some <==> self@.pairs(n as int) is Some,
            pairs matches Some(list) ==> list@.len() == self@.pairs(n as int)->0.len() && forall|
                k: int,
            |
                0 <= k < list@.len() ==> (#[trigger] list@[k])@[0] == self@.pairs(n as int)->0[k].0
                    && list@[k]@[1] == self@.pairs(n as int)->0[k].1,
    {
        if n >= self.count || n >= self.vertex_weight_count.len() {
            return None;
        }
        let ghost counts = self.vertex_weight_count@;
        let len = self.indices.len();
        let mut sum: usize = 0;
        let mut i: usize = 0;
        while i < n
            invariant
                i <= n < counts.len(),
                counts == self.vertex_weight_count@,
                len == self.indices@.len(),
                sum == prefix_sum(counts, i as int),
                2 * sum <= len,
            decreases n - i,
        {
            let next = self.vertex_weight_count[i];
            if next > len - sum {
                proof {
                    lemma_prefix_sum_grows(counts, i + 1, n as int);
                }
                return None;
            }
            sum = sum + next;
            if sum > len / 2 {
                proof {
                    lemma_prefix_sum_grows(counts, i + 1, n as int);
                }
                return None;
            }
            i += 1;
        }
        let start = 2 * sum;
        let pair_count = self.vertex_weight_count[n];
        if pair_count > (len - start) / 2 {
            return None;
        }
        let mut pairs: Vec<[usize; 2]> = Vec::new();
        let mut k: usize = 0;
        while k < pair_count
            invariant
                k <= pair_count,
                start == self@.start(n as int),
                pair_count == counts[n as int],
                self@.reaches(n as int),
                len == self.indices@.len(),
                start + 2 * pair_count <= len,
                pairs@.len() == k,
                forall|j: int|
                    0 <= j < k ==> (#[trigger] pairs@[j])@[0] == self.indices@[start + 2 * j]
                        && pairs@[j]@[1] == self.indices@[start + 2 * j + 1],
            decreases pair_count - k,
        {
            let at = start + 2 * k;
            let pair = [self.indices[at], self.indices[at + 1]];
            pairs.push(pair);
            k += 1;
        }
        Some(pairs)
    }

    /// Decodes the `vertex_weights` element at `node`.
    #[verifier::loop_isolation(false)]
    pub fn parse_vertex_weights(node: usize, tree: &XmlTree) -> (parsed: Result<
        VertexWeights,
        Error,
    >)
        ensures
            match parsed {
                Ok(list) => vertex_weights_model(tree@, node as int) == Ok::<
                    VertexWeightsModel,
                    Error,
                >(list@),
                Err(error) => vertex_weights_model(tree@, node as int) == Err::<
                    VertexWeightsModel,
                    Error,
                >(error),
            },
    {
        let element = match tree.get_node(node) {
            Some(element) => element,
            None => {
                return Err(Error::new(ErrorKind::Structure, Stage::VertexWeights));
            },
        };
        if !has_tag(element, "vertex_weights") {
            return Err(Error::new(ErrorKind::Structure, Stage::VertexWeights));
        }
        let count = unsigned_attribute(element, "count", Stage::VertexWeights)?;
        let none: Vec<usize> = Vec::new();
        let children = children_or_none(element, &none);
        let mut joints: Option<usize> = None;
        let mut weights: Option<usize> = None;
        let mut vertex_weight_count: Vec<usize> = Vec::new();
        let mut indices: Vec<usize> = Vec::new();
        let ghost start = WeightParts {
            joints: None,
            weights: None,
            vertex_weight_count: Seq::empty(),
            indices: Seq::empty(),
        };
        let mut i: usize = 0;
        while i < children.len()
            invariant
                i <= children@.len(),
                weight_parts_from(tree@, children@, 0, start) == weight_parts_from(
                    tree@,
                    children@,
                    i as int,
                    WeightParts {
                        joints,
                        weights,
                        vertex_weight_count: vertex_weight_count@,
                        indices: indices@,
                    },
                ),
            decreases children@.len() - i,
        {
            let child = child_at(tree, children, i, Ghost(node as int));
            if has_tag(child, "input") {
                let semantic = required_attribute(child, "semantic", Stage::VertexWeights)?;
                if same_text(semantic, "JOINT") {
                    let offset = unsigned_attribute(child, "offset", Stage::VertexWeights)?;
                    joints = Some(offset);
                } else if same_text(semantic, "WEIGHT") {
                    let offset = unsigned_attribute(child, "offset", Stage::VertexWeights)?;
                    weights = Some(offset);
                }
            } else if has_tag(child, "vcount") {
                vertex_weight_count = read_index_list(child)?;
            } else if has_tag(child, "v") {
                indices = read_index_list(child)?;
            }
            i += 1;
        }
        match (joints, weights) {
            (Some(joints), Some(weights)) => {
                match VertexWeights::new(count, joints, weights, vertex_weight_count, indices) {
                    Some(list) => Ok(list),
                    None => Err(Error::new(ErrorKind::Consistency, Stage::VertexWeights)),
                }
            },
            _ => Err(Error::new(ErrorKind::Structure, Stage::VertexWeights)),
        }
    }
}

} // verus!
