//! Animations: for each driven target the sample times and the transform
//! at each of them.

use crate::collada::accessor::lemma_records;
use crate::collada::error::{Error, ErrorKind, Stage};
use crate::collada::skin::{all_records, first_elements, matrices_model};
use crate::collada::source::{source_model, DataSource, SourceModel};
use crate::collada::util::{
    child_at, children_or_none, fault, has_tag, required, required_attribute,
};
use crate::math::{Matrix4, Scalar};
use crate::text::{is_joined, same_text, Literal};
use crate::xml_tree::node::NodeModel;
use crate::xml_tree::tree::XmlTree;
use vstd::prelude::*;

verus! {

/// The parts of an animation element that drives one target.
#[derive(Debug)]
pub struct SubAnimationParser<S> {
    target: String,
    sample_times: DataSource<S>,
    transformations: DataSource<S>,
}

/// The model of the parts of an animation element.
pub struct SubAnimationParserModel<S> {
    pub target: Seq<char>,
    pub sample_times: SourceModel<S>,
    pub transformations: SourceModel<S>,
}

impl<S> View for SubAnimationParser<S> {
    type V = SubAnimationParserModel<S>;

    closed spec fn view(&self) -> SubAnimationParserModel<S> {
        SubAnimationParserModel {
            target: self.target@,
            sample_times: self.sample_times@,
            transformations: self.transformations@,
        }
    }
}

/// The curve of one target: the sample times and the transform at each.
#[derive(Debug)]
pub struct SubAnimation<S> {
    pub target: String,
    pub sample_times: Vec<S>,
    pub transformations: Vec<Matrix4<S>>,
}

/// The model of a curve; a transform is the 16 entries of its matrix.
pub struct SubAnimationModel<S> {
    pub target: Seq<char>,
    pub sample_times: Seq<S>,
    pub transformations: Seq<Seq<S>>,
}

impl<S> View for SubAnimation<S> {
    type V = SubAnimationModel<S>;

    open spec fn view(&self) -> SubAnimationModel<S> {
        SubAnimationModel {
            target: self.target@,
            sample_times: self.sample_times@,
            transformations: matrices_model(self.transformations@),
        }
    }
}

/// What is found in an animation element so far.
pub struct CurveParts<S> {
    pub target: Option<Seq<char>>,
    pub sample_times: Option<SourceModel<S>>,
    pub transformations: Option<SourceModel<S>>,
}

/// The parts among `children` from position `from` on, added to those
/// found before. A `source` child must have an id; the one whose id is `id`
/// followed by `-input` holds the sample times, `-output` the transforms.
/// A `channel` child must name its target. Of each part the last one
/// counts.
pub open spec fn curve_parts_from<S: Literal>(
    tree: Seq<NodeModel>,
    children: Seq<usize>,
    from: int,
    id: Seq<char>,
    parts: CurveParts<S>,
) -> Result<CurveParts<S>, Error>
    decreases children.len() - from,
{
    if from < 0 || from >= children.len() {
        Ok(parts)
    } else {
        let at = children[from] as int;
        let child = tree[at];
        if child.name == "source"@ {
            match required(child, "id", Stage::Animation) {
                Err(error) => Err(error),
                Ok(source_id) => if source_id == id + "-input"@ {
                    match source_model::<S>(tree, at, "float_array"@) {
                        Err(error) => Err(error),
                        Ok(source) => curve_parts_from(
                            tree,
                            children,
                            from + 1,
                            id,
                            CurveParts { sample_times: Some(source), ..parts },
                        ),
                    }
                } else if source_id == id + "-output"@ {
                    match source_model::<S>(tree, at, "float_array"@) {
                        Err(error) => Err(error),
                        Ok(source) => curve_parts_from(
                            tree,
                            children,
                            from + 1,
                            id,
                            CurveParts { transformations: Some(source), ..parts },
                        ),
                    }
                } else {
                    curve_parts_from(tree, children, from + 1, id, parts)
                },
            }
        } else if child.name == "channel"@ {
            match required(child, "target", Stage::Animation) {
                Err(error) => Err(error),
                Ok(target) => curve_parts_from(
                    tree,
                    children,
                    from + 1,
                    id,
                    CurveParts { target: Some(target), ..parts },
                ),
            }
        } else {
            curve_parts_from(tree, children, from + 1, id, parts)
        }
    }
}

/// What the element at `node` decodes to as the parts of a curve: its tag
/// must be `animation`, it must have an id, and the sample times, the
/// transforms and the target must all be there.
pub open spec fn sub_animation_parser_model<S: Literal>(tree: Seq<NodeModel>, node: int) -> Result<
    SubAnimationParserModel<S>,
    Error,
> {
    if !(0 <= node < tree.len()) || tree[node].name != "animation"@ {
        Err(fault(ErrorKind::Structure, Stage::Animation))
    } else {
        match required(tree[node], "id", Stage::Animation) {
            Err(error) => Err(error),
            Ok(id) => match curve_parts_from::<S>(
                tree,
                tree[node].child_list(),
                0,
                id,
                CurveParts { target: None, sample_times: None, transformations: None },
            ) {
                Err(error) => Err(error),
                Ok(parts) => match (parts.target, parts.sample_times, parts.transformations) {
                    (Some(target), Some(sample_times), Some(transformations)) => Ok(
                        SubAnimationParserModel { target, sample_times, transformations },
                    ),
                    _ => Err(fault(ErrorKind::Structure, Stage::Animation)),
                },
            },
        }
    }
}

/// The curve that the parts make: the sample times are the first elements
/// of the records of their source; the transforms are the records of
/// theirs, which must have 16 entries each; and there must be as many
/// transforms as sample times.
pub open spec fn sub_animation_model<S>(parts: SubAnimationParserModel<S>) -> Result<
    SubAnimationModel<S>,
    Error,
> {
    if parts.transformations.records() > 0 && parts.transformations.accessor.stride != 16 {
        Err(fault(ErrorKind::Literal, Stage::Matrix))
    } else if parts.sample_times.records() != parts.transformations.records() {
        Err(fault(ErrorKind::Consistency, Stage::Animation))
    } else {
        Ok(
            SubAnimationModel {
                target: parts.target,
                sample_times: first_elements(parts.sample_times),
                transformations: all_records(parts.transformations),
            },
        )
    }
}

/// What the element at `node` decodes to as a curve.
pub open spec fn parsed_sub_animation_model<S: Literal>(tree: Seq<NodeModel>, node: int) -> Result<
    SubAnimationModel<S>,
    Error,
> {
    match sub_animation_parser_model::<S>(tree, node) {
        Err(error) => Err(error),
        Ok(parts) => sub_animation_model(parts),
    }
}

/// The models of the parts found so far.
pub open spec fn found_curve_parts<S>(
    target: Option<&str>,
    sample_times: Option<DataSource<S>>,
    transformations: Option<DataSource<S>>,
) -> CurveParts<S> {
    CurveParts {
        target: match target {
            Some(text) => Some(text@),
            None => None,
        },
        sample_times: match sample_times {
            Some(source) => Some(source@),
            None => None,
        },
        transformations: match transformations {
            Some(source) => Some(source@),
            None => None,
        },
    }
}

impl<S: Scalar> SubAnimationParser<S> {
    /// Decodes the parts of the `animation` element at `node` that drives
    /// one target.
    #[verifier::loop_isolation(false)]
    pub fn parse_sub_animation(node: usize, tree: &XmlTree) -> (parsed: Result<
        SubAnimationParser<S>,
        Error,
    >)
        ensures
            match parsed {
                Ok(parser) => sub_animation_parser_model::<S>(tree@, node as int) == Ok::<
                    SubAnimationParserModel<S>,
                    Error,
                >(parser@),
                Err(error) => sub_animation_parser_model::<S>(tree@, node as int) == Err::<
                    SubAnimationParserModel<S>,
                    Error,
                >(error),
            },
    {
        let element = match tree.get_node(node) {
            Some(element) => element,
            None => {
                return Err(Error::new(ErrorKind::Structure, Stage::Animation));
            },
        };
        if !has_tag(element, "animation") {
            return Err(Error::new(ErrorKind::Structure, Stage::Animation));
        }
        let id = required_attribute(element, "id", Stage::Animation)?;
        let none: Vec<usize> = Vec::new();
        let children = children_or_none(element, &none);
        let mut target: Option<&str> = None;
        let mut sample_times: Option<DataSource<S>> = None;
        let mut transformations: Option<DataSource<S>> = None;
        let ghost start = CurveParts::<S> { target: None, sample_times: None, transformations: None };
        let mut i: usize = 0;
        while i < children.len()
            invariant
                i <= children@.len(),
                curve_parts_from::<S>(tree@, children@, 0, id@, start) == curve_parts_from::<S>(
                    tree@,
                    children@,
                    i as int,
                    id@,
                    found_curve_parts(target, sample_times, transformations),
                ),
            decreases children@.len() - i,
        {
            let child = child_at(tree, children, i, Ghost(node as int));
            let at = children[i];
            if has_tag(child, "source") {
                let source_id = required_attribute(child, "id", Stage::Animation)?;
                if is_joined(source_id, id, "-input") {
                    sample_times = Some(DataSource::<S>::parse_source(at, tree, "float_array")?);
                } else if is_joined(source_id, id, "-output") {
                    transformations = Some(DataSource::<S>::parse_source(at, tree, "float_array")?);
                }
            } else if has_tag(child, "channel") {
                target = Some(required_attribute(child, "target", Stage::Animation)?);
            }
            i += 1;
        }
        match (target, sample_times, transformations) {
            (Some(target), Some(sample_times), Some(transformations)) => Ok(
                SubAnimationParser { target: target.to_owned(), sample_times, transformations },
            ),
            _ => Err(Error::new(ErrorKind::Structure, Stage::Animation)),
        }
    }

    /// Makes the curve of the parts.
    #[verifier::loop_isolation(false)]
    pub fn into_animation(&self) -> (made: Result<SubAnimation<S>, Error>)
        ensures
            match made {
                Ok(curve) => sub_animation_model(self@) == Ok::<SubAnimationModel<S>, Error>(curve@),
                Err(error) => sub_animation_model(self@) == Err::<SubAnimationModel<S>, Error>(
                    error,
                ),
            },
    {
        let times = self.sample_times.record_count();
        let count = self.transformations.record_count();
        if count > 0 && self.transformations.stride() != 16 {
            return Err(Error::new(ErrorKind::Literal, Stage::Matrix));
        }
        if times != count {
            return Err(Error::new(ErrorKind::Consistency, Stage::Animation));
        }
        let mut sample_times: Vec<S> = Vec::new();
        let mut i: usize = 0;
        while i < times
            invariant
                i <= times,
                sample_times@.len() == i,
                forall|k: int|
                    0 <= k < i ==> (#[trigger] sample_times@[k]) == first_elements(
                        self@.sample_times,
                    )[k],
            decreases times - i,
        {
            proof {
                lemma_records(self.sample_times@.array, self.sample_times@.accessor.stride, i as int);
            }
            match self.sample_times.get_nth_value(i) {
                Some(record) => {
                    sample_times.push(record[0]);
                },
                None => {
                    assert(false);
                },
            }
            i += 1;
        }
        assert(sample_times@ =~= first_elements(self@.sample_times));
        let mut transformations: Vec<Matrix4<S>> = Vec::new();
        let mut i: usize = 0;
        while i < count
            invariant
                i <= count,
                transformations@.len() == i,
                forall|k: int|
                    0 <= k < i ==> (#[trigger] transformations@[k]).values@ == all_records(
                        self@.transformations,
                    )[k],
            decreases count - i,
        {
            proof {
                lemma_records(self.transformations@.array, self.transformations@.accessor.stride, i as int);
            }
            match self.transformations.get_nth_value(i) {
                Some(record) => match Matrix4::from_slice(record) {
                    Ok(matrix) => {
                        transformations.push(matrix);
                    },
                    Err(_) => {
                        assert(false);
                    },
                },
                None => {
                    assert(false);
                },
            }
            i += 1;
        }
        assert(matrices_model(transformations@) =~= all_records(self@.transformations));
        Ok(SubAnimation { target: self.target.clone(), sample_times, transformations })
    }
}

/// The curves of an animation, gathered under one id and name.
#[derive(Debug)]
pub struct Animation<S> {
    pub name: String,
    pub id: String,
    pub sub_animations: Vec<SubAnimation<S>>,
}

/// The model of an animation.
pub struct AnimationModel<S> {
    pub name: Seq<char>,
    pub id: Seq<char>,
    pub sub_animations: Seq<SubAnimationModel<S>>,
}

/// The models of a list of curves.
pub open spec fn curves_model<S>(curves: Seq<SubAnimation<S>>) -> Seq<SubAnimationModel<S>> {
    Seq::new(curves.len(), |i: int| curves[i]@)
}

impl<S> View for Animation<S> {
    type V = AnimationModel<S>;

    open spec fn view(&self) -> AnimationModel<S> {
        AnimationModel {
            name: self.name@,
            id: self.id@,
            sub_animations: curves_model(self.sub_animations@),
        }
    }
}

impl<S> AnimationModel<S> {
    /// Whether some curve of the animation drives `target`.
    pub open spec fn has_target(self, target: Seq<char>) -> bool {
        exists|i: int| 0 <= i < self.sub_animations.len() && self.sub_animations[i].target == target
    }
}

/// The curves of the children from position `from` on, appended to
/// `curves`; every child must decode as a curve.
pub open spec fn curves_from<S: Literal>(
    tree: Seq<NodeModel>,
    children: Seq<usize>,
    from: int,
    curves: Seq<SubAnimationModel<S>>,
) -> Result<Seq<SubAnimationModel<S>>, Error>
    decreases children.len() - from,
{
    if from < 0 || from >= children.len() {
        Ok(curves)
    } else {
        match parsed_sub_animation_model::<S>(tree, children[from] as int) {
            Err(error) => Err(error),
            Ok(curve) => curves_from(tree, children, from + 1, curves.push(curve)),
        }
    }
}

/// What the element at `node` decodes to as an animation: it must have a
/// name and an id, and each of its children must decode as a curve.
pub open spec fn animation_model<S: Literal>(tree: Seq<NodeModel>, node: int) -> Result<
    AnimationModel<S>,
    Error,
> {
    if !(0 <= node < tree.len()) {
        Err(fault(ErrorKind::Structure, Stage::Animation))
    } else {
        match required(tree[node], "name", Stage::Animation) {
            Err(error) => Err(error),
            Ok(name) => match required(tree[node], "id", Stage::Animation) {
                Err(error) => Err(error),
                Ok(id) => match curves_from::<S>(tree, tree[node].child_list(), 0, Seq::empty()) {
                    Err(error) => Err(error),
                    Ok(sub_animations) => Ok(AnimationModel { name, id, sub_animations }),
                },
            },
        }
    }
}

impl<S: Scalar> Animation<S> {
    /// Whether some curve of the animation drives the target `name`.
    pub fn has_target(&self, name: &str) -> (has: bool)
        ensures
            has == self@.has_target(name@),
    {
        let mut i: usize = 0;
        while i < self.sub_animations.len()
            invariant
                i <= self.sub_animations@.len(),
                forall|k: int| 0 <= k < i ==> self@.sub_animations[k].target != name@,
            decreases self.sub_animations@.len() - i,
        {
            if same_text(self.sub_animations[i].target.as_str(), name) {
                assert(self@.sub_animations[i as int].target == name@);
                return true;
            }
            i += 1;
        }
        false
    }

    /// Decodes the element at `node` as an animation.
    #[verifier::loop_isolation(false)]
    pub fn parse_animation(node: usize, tree: &XmlTree) -> (parsed: Result<Animation<S>, Error>)
        ensures
            match parsed {
                Ok(animation) => animation_model::<S>(tree@, node as int) == Ok::<
                    AnimationModel<S>,
                    Error,
                >(animation@),
                Err(error) => animation_model::<S>(tree@, node as int) == Err::<
                    AnimationModel<S>,
                    Error,
                >(error),
            },
    {
        let element = match tree.get_node(node) {
            Some(element) => element,
            None => {
                return Err(Error::new(ErrorKind::Structure, Stage::Animation));
            },
        };
        let name = required_attribute(element, "name", Stage::Animation)?;
        let id = required_attribute(element, "id", Stage::Animation)?;
        let none: Vec<usize> = Vec::new();
        let children = children_or_none(element, &none);
        let mut sub_animations: Vec<SubAnimation<S>> = Vec::new();
        assert(curves_model(sub_animations@) =~= Seq::empty());
        let mut i: usize = 0;
        while i < children.len()
            invariant
                i <= children@.len(),
                curves_from::<S>(tree@, children@, 0, Seq::empty()) == curves_from::<S>(
                    tree@,
                    children@,
                    i as int,
                    curves_model(sub_animations@),
                ),
            decreases children@.len() - i,
        {
            let child = child_at(tree, children, i, Ghost(node as int));
            let parser = SubAnimationParser::<S>::parse_sub_animation(children[i], tree)?;
            let curve = parser.into_animation()?;
            let ghost before = curves_model(sub_animations@);
            let ghost model = curve@;
            sub_animations.push(curve);
            assert(curves_model(sub_animations@) =~= before.push(model));
            i += 1;
        }
        Ok(Animation { name: name.to_owned(), id: id.to_owned(), sub_animations })
    }
}

} // verus!
