//! The document: its libraries, keyed by id, and the links between them.

use crate::collada::animation::{animation_model, Animation, AnimationModel};
use crate::collada::document::controller::{controller_model, Controller};
use crate::collada::document::geometry::{geometry_model, Geometry};
use crate::collada::document::visual_scene::{
    controllers_among, controllers_view, skeletons_among, skeletons_view, visual_scene_model,
    InstanceControllerModel, VisualScene, VisualSceneModel,
};
use crate::collada::error::{Error, ErrorKind, Stage};
use crate::collada::mesh::MeshModel;
use crate::collada::skeleton::{Skeleton, SkeletonModel};
use crate::collada::skin::{Skin, SkinModel};
use crate::collada::util::{child_at, children_or_none, fault, has_tag};
use crate::collada::Mesh;
use crate::math::{Scalar, Vector3};
use crate::text::{reference_target, same_text, strip_marker};
use crate::xml_tree::node::NodeModel;
use crate::xml_tree::tree::{build_model, document_events, XmlTree};
use vstd::prelude::*;

pub mod controller;
pub mod geometry;
pub mod visual_scene;

verus! {

/// The position of the first entry from position `from` on whose key is
/// `id`.
pub open spec fn key_from<M>(entries: Seq<(Seq<char>, M)>, id: Seq<char>, from: int) -> Option<int>
    decreases entries.len() - from,
{
    if from < 0 || from >= entries.len() {
        None
    } else if entries[from].0 == id {
        Some(from)
    } else {
        key_from(entries, id, from + 1)
    }
}

/// The value under the key `id`.
pub open spec fn lookup<M>(entries: Seq<(Seq<char>, M)>, id: Seq<char>) -> Option<M> {
    match key_from(entries, id, 0) {
        Some(position) => Some(entries[position].1),
        None => None,
    }
}

/// The entries with `value` under the key `id`: in place of the value that
/// was there, or as a new last entry.
pub open spec fn inserted<M>(entries: Seq<(Seq<char>, M)>, id: Seq<char>, value: M) -> Seq<
    (Seq<char>, M),
> {
    match key_from(entries, id, 0) {
        Some(position) => entries.update(position, (id, value)),
        None => entries.push((id, value)),
    }
}

/// No key comes twice.
pub open spec fn distinct_keys<M>(entries: Seq<(Seq<char>, M)>) -> bool {
    forall|i: int, j: int| 0 <= i < j < entries.len() ==> entries[i].0 != entries[j].0
}

/// The first position of a key is a position of that key, and the first.
pub proof fn lemma_key_from<M>(entries: Seq<(Seq<char>, M)>, id: Seq<char>, from: int)
    requires
        0 <= from,
    ensures
        match key_from(entries, id, from) {
            Some(position) => from <= position < entries.len() && entries[position].0 == id
                && forall|k: int| from <= k < position ==> entries[k].0 != id,
            None => forall|k: int| from <= k < entries.len() ==> entries[k].0 != id,
        },
    decreases entries.len() - from,
{
    if from < entries.len() && entries[from].0 != id {
        lemma_key_from(entries, id, from + 1);
    }
}

/// Inserting keeps the keys distinct, and the inserted value is then found
/// under its key; what is under other keys stays.
pub proof fn lemma_inserted<M>(entries: Seq<(Seq<char>, M)>, id: Seq<char>, value: M, other: Seq<char>)
    requires
        distinct_keys(entries),
    ensures
        distinct_keys(inserted(entries, id, value)),
        lookup(inserted(entries, id, value), id) == Some(value),
        other != id ==> lookup(inserted(entries, id, value), other) == lookup(entries, other),
{
    let after = inserted(entries, id, value);
    lemma_key_from(entries, id, 0);
    lemma_key_from(after, id, 0);
    lemma_key_from(entries, other, 0);
    lemma_key_from(after, other, 0);
    let at: int = match key_from(entries, id, 0) {
        Some(position) => position,
        None => entries.len() as int,
    };
    assert(after[at] == (id, value));
    assert(after.len() > at);
    assert forall|k: int| 0 <= k < after.len() && k != at implies after[k] == entries[k] by {}
    assert forall|k: int| 0 <= k < after.len() && k != at implies (#[trigger] after[k]).0 != id by {
        assert(after[k] == entries[k]);
        if k < entries.len() && k > at {
            assert(entries[at].0 != entries[k].0);
        }
    }
    assert(key_from(after, id, 0) == Some(at)) by {
        match key_from(after, id, 0) {
            Some(found) => {
                if found != at {
                    assert(after[found].0 != id);
                }
            },
            None => {
                assert(after[at].0 == id);
            },
        }
    }
    assert forall|i: int, j: int| 0 <= i < j < after.len() implies after[i].0 != after[j].0 by {
        if i != at && j != at {
            assert(after[i] == entries[i]);
            assert(after[j] == entries[j]);
        } else if i == at {
            assert(after[j].0 != id);
        } else {
            assert(after[i].0 != id);
        }
    }
    if other != id {
        match key_from(entries, other, 0) {
            Some(found) => {
                assert(found != at);
                assert(after[found] == entries[found]);
                match key_from(after, other, 0) {
                    Some(again) => {
                        if again < found {
                            assert(after[again] == entries[again]);
                            assert(entries[again].0 != other);
                        } else if again > found {
                            assert(after[found].0 != other);
                        }
                    },
                    None => {
                        assert(after[found].0 != other);
                    },
                }
            },
            None => {
                match key_from(after, other, 0) {
                    Some(again) => {
                        assert(again != at);
                        assert(after[again] == entries[again]);
                        assert(entries[again].0 != other);
                    },
                    None => {},
                }
            },
        }
    }
}

/// The entries after the first `to` of `more` were put under their ids,
/// one after the other.
pub open spec fn inserted_up_to<M>(
    entries: Seq<(Seq<char>, M)>,
    more: Seq<(Seq<char>, M)>,
    to: int,
) -> Seq<(Seq<char>, M)>
    decreases to,
{
    if to <= 0 {
        entries
    } else {
        inserted(inserted_up_to(entries, more, to - 1), more[to - 1].0, more[to - 1].1)
    }
}

/// What is put of the first entries does not depend on an entry that comes
/// after them.
pub proof fn lemma_inserted_up_to_push<M>(
    entries: Seq<(Seq<char>, M)>,
    more: Seq<(Seq<char>, M)>,
    last: (Seq<char>, M),
    to: int,
)
    requires
        0 <= to <= more.len(),
    ensures
        inserted_up_to(entries, more.push(last), to) == inserted_up_to(entries, more, to),
    decreases to,
{
    if to > 0 {
        lemma_inserted_up_to_push(entries, more, last, to - 1);
        assert(more.push(last)[to - 1] == more[to - 1]);
    }
}

/// A map from ids to values that keeps the order in which the ids came. No
/// id occurs twice.
#[derive(Debug)]
pub struct IdMap<V: View> {
    entries: Vec<(String, V)>,
}

/// The models of a list of entries: each id with the model of its value.
pub open spec fn entries_model<V: View>(entries: Seq<(String, V)>) -> Seq<(Seq<char>, V::V)> {
    Seq::new(entries.len(), |i: int| (entries[i].0@, entries[i].1@))
}

impl<V: View> View for IdMap<V> {
    type V = Seq<(Seq<char>, V::V)>;

    closed spec fn view(&self) -> Seq<(Seq<char>, V::V)> {
        entries_model(self.entries@)
    }
}

/// The position of the first entry whose key is `id`.
fn position_of<V: View>(entries: &Vec<(String, V)>, id: &str) -> (position: Option<usize>)
    ensures
        match position {
            Some(at) => key_from(entries_model(entries@), id@, 0) == Some(at as int) && at
                < entries@.len(),
            None => key_from(entries_model(entries@), id@, 0) is None,
        },
{
    let mut i: usize = 0;
    while i < entries.len()
        invariant
            i <= entries@.len(),
            key_from(entries_model(entries@), id@, 0) == key_from(
                entries_model(entries@),
                id@,
                i as int,
            ),
        decreases entries@.len() - i,
    {
        if same_text(entries[i].0.as_str(), id) {
            return Some(i);
        }
        i += 1;
    }
    None
}

impl<V: View> IdMap<V> {
    /// What holds of every map: no key occurs twice.
    #[verifier::type_invariant]
    pub open spec fn well_formed(&self) -> bool {
        distinct_keys(self@)
    }

    /// The map without entries.
    pub fn new() -> (map: IdMap<V>)
        ensures
            map@ == Seq::<(Seq<char>, V::V)>::empty(),
    {
        let entries: Vec<(String, V)> = Vec::new();
        assert(entries_model(entries@) =~= Seq::empty());
        IdMap { entries }
    }

    /// The number of entries.
    pub fn len(&self) -> (len: usize)
        ensures
            len == self@.len(),
    {
        self.entries.len()
    }

    /// Puts `value` under the key `id`, in place of what was there.
    pub fn insert(&mut self, id: String, value: V)
        ensures
            final(self)@ == inserted(old(self)@, id@, value@),
    {
        proof {
            use_type_invariant(&*self);
            lemma_inserted(self@, id@, value@, id@);
        }
        let mut taken: IdMap<V> = IdMap::new();
        core::mem::swap(self, &mut taken);
        let IdMap { entries } = taken;
        let mut entries = entries;
        let ghost before = entries_model(entries@);
        match position_of(&entries, id.as_str()) {
            Some(at) => {
                entries.set(at, (id, value));
            },
            None => {
                entries.push((id, value));
            },
        }
        assert(entries_model(entries@) =~= inserted(before, id@, value@));
        *self = IdMap { entries };
    }

    /// The value under the key `name`.
    pub fn get(&self, name: &str) -> (value: Option<&V>)
        ensures
            match value {
                Some(found) => lookup(self@, name@) == Some(found@),
                None => lookup(self@, name@) is None,
            },
    {
        match position_of(&self.entries, name) {
            Some(at) => Some(&self.entries[at].1),
            None => None,
        }
    }

    /// Entry `i` in the order in which the ids came.
    pub fn entry(&self, i: usize) -> (entry: Option<(&String, &V)>)
        ensures
            match entry {
                Some((id, value)) => i < self@.len() && self@[i as int] == (id@, value@),
                None => i >= self@.len(),
            },
    {
        if i < self.entries.len() {
            Some((&self.entries[i].0, &self.entries[i].1))
        } else {
            None
        }
    }
}

/// A document: its meshes, animations and skins by id, and its scenes.
#[derive(Debug)]
pub struct Document<S> {
    pub geometries: IdMap<Mesh<S>>,
    pub animations: IdMap<Animation<S>>,
    pub skins: IdMap<Skin<S>>,
    pub scenes: Vec<VisualScene<S>>,
}

/// The model of a document.
pub struct DocumentModel<S> {
    pub geometries: Seq<(Seq<char>, MeshModel<Vector3<S>, S>)>,
    pub animations: Seq<(Seq<char>, AnimationModel<S>)>,
    pub skins: Seq<(Seq<char>, SkinModel<S>)>,
    pub scenes: Seq<VisualSceneModel<S>>,
}

/// The models of a list of scenes.
pub open spec fn scenes_model<S>(scenes: Seq<VisualScene<S>>) -> Seq<VisualSceneModel<S>> {
    Seq::new(scenes.len(), |i: int| scenes[i]@)
}

impl<S> View for Document<S> {
    type V = DocumentModel<S>;

    open spec fn view(&self) -> DocumentModel<S> {
        DocumentModel {
            geometries: self.geometries@,
            animations: self.animations@,
            skins: self.skins@,
            scenes: scenes_model(self.scenes@),
        }
    }
}

/// The meshes after the `geometry` children among `children` from position
/// `from` on, each put under its id.
pub open spec fn library_geometries_from<S: Scalar>(
    tree: Seq<NodeModel>,
    children: Seq<usize>,
    from: int,
    entries: Seq<(Seq<char>, MeshModel<Vector3<S>, S>)>,
) -> Result<Seq<(Seq<char>, MeshModel<Vector3<S>, S>)>, Error>
    decreases children.len() - from,
{
    if from < 0 || from >= children.len() {
        Ok(entries)
    } else if tree[children[from] as int].name != "geometry"@ {
        library_geometries_from::<S>(tree, children, from + 1, entries)
    } else {
        match geometry_model::<S>(tree, children[from] as int) {
            Err(error) => Err(error),
            Ok(geometry) => library_geometries_from::<S>(
                tree,
                children,
                from + 1,
                inserted(entries, geometry.id, geometry.mesh),
            ),
        }
    }
}

/// The meshes after the `library_geometries` elements from node `from` of
/// the tree on.
pub open spec fn geometries_from<S: Scalar>(
    tree: Seq<NodeModel>,
    from: int,
    entries: Seq<(Seq<char>, MeshModel<Vector3<S>, S>)>,
) -> Result<Seq<(Seq<char>, MeshModel<Vector3<S>, S>)>, Error>
    decreases tree.len() - from,
{
    if from < 0 || from >= tree.len() {
        Ok(entries)
    } else if tree[from].name != "library_geometries"@ {
        geometries_from::<S>(tree, from + 1, entries)
    } else {
        match library_geometries_from::<S>(tree, tree[from].child_list(), 0, entries) {
            Err(error) => Err(error),
            Ok(next) => geometries_from::<S>(tree, from + 1, next),
        }
    }
}

/// The animations after the `animation` children among `children` from
/// position `from` on, each put under its id.
pub open spec fn library_animations_from<S: Scalar>(
    tree: Seq<NodeModel>,
    children: Seq<usize>,
    from: int,
    entries: Seq<(Seq<char>, AnimationModel<S>)>,
) -> Result<Seq<(Seq<char>, AnimationModel<S>)>, Error>
    decreases children.len() - from,
{
    if from < 0 || from >= children.len() {
        Ok(entries)
    } else if tree[children[from] as int].name != "animation"@ {
        library_animations_from::<S>(tree, children, from + 1, entries)
    } else {
        match animation_model::<S>(tree, children[from] as int) {
            Err(error) => Err(error),
            Ok(animation) => library_animations_from::<S>(
                tree,
                children,
                from + 1,
                inserted(entries, animation.id, animation),
            ),
        }
    }
}

/// The animations after the `library_animations` elements from node `from`
/// of the tree on.
pub open spec fn animations_from<S: Scalar>(
    tree: Seq<NodeModel>,
    from: int,
    entries: Seq<(Seq<char>, AnimationModel<S>)>,
) -> Result<Seq<(Seq<char>, AnimationModel<S>)>, Error>
    decreases tree.len() - from,
{
    if from < 0 || from >= tree.len() {
        Ok(entries)
    } else if tree[from].name != "library_animations"@ {
        animations_from::<S>(tree, from + 1, entries)
    } else {
        match library_animations_from::<S>(tree, tree[from].child_list(), 0, entries) {
            Err(error) => Err(error),
            Ok(next) => animations_from::<S>(tree, from + 1, next),
        }
    }
}

/// The skins after the `controller` children among `children` from
/// position `from` on, each put under the id of its controller.
pub open spec fn library_skins_from<S: Scalar>(
    tree: Seq<NodeModel>,
    children: Seq<usize>,
    from: int,
    entries: Seq<(Seq<char>, SkinModel<S>)>,
) -> Result<Seq<(Seq<char>, SkinModel<S>)>, Error>
    decreases children.len() - from,
{
    if from < 0 || from >= children.len() {
        Ok(entries)
    } else if tree[children[from] as int].name != "controller"@ {
        library_skins_from::<S>(tree, children, from + 1, entries)
    } else {
        match controller_model::<S>(tree, children[from] as int) {
            Err(error) => Err(error),
            Ok(controller) => library_skins_from::<S>(
                tree,
                children,
                from + 1,
                inserted(entries, controller.id, controller.skin),
            ),
        }
    }
}

/// The skins after the `library_controllers` elements from node `from` of
/// the tree on.
pub open spec fn skins_from<S: Scalar>(
    tree: Seq<NodeModel>,
    from: int,
    entries: Seq<(Seq<char>, SkinModel<S>)>,
) -> Result<Seq<(Seq<char>, SkinModel<S>)>, Error>
    decreases tree.len() - from,
{
    if from < 0 || from >= tree.len() {
        Ok(entries)
    } else if tree[from].name != "library_controllers"@ {
        skins_from::<S>(tree, from + 1, entries)
    } else {
        match library_skins_from::<S>(tree, tree[from].child_list(), 0, entries) {
            Err(error) => Err(error),
            Ok(next) => skins_from::<S>(tree, from + 1, next),
        }
    }
}

/// The scenes after the `visual_scene` children among `children` from
/// position `from` on.
pub open spec fn library_scenes_from<S: Scalar>(
    tree: Seq<NodeModel>,
    children: Seq<usize>,
    from: int,
    scenes: Seq<VisualSceneModel<S>>,
) -> Result<Seq<VisualSceneModel<S>>, Error>
    decreases children.len() - from,
{
    if from < 0 || from >= children.len() {
        Ok(scenes)
    } else if tree[children[from] as int].name != "visual_scene"@ {
        library_scenes_from::<S>(tree, children, from + 1, scenes)
    } else {
        match visual_scene_model::<S>(tree, children[from] as int) {
            Err(error) => Err(error),
            Ok(scene) => library_scenes_from::<S>(tree, children, from + 1, scenes.push(scene)),
        }
    }
}

/// The scenes after the `library_visual_scenes` elements from node `from`
/// of the tree on.
pub open spec fn scenes_from<S: Scalar>(
    tree: Seq<NodeModel>,
    from: int,
    scenes: Seq<VisualSceneModel<S>>,
) -> Result<Seq<VisualSceneModel<S>>, Error>
    decreases tree.len() - from,
{
    if from < 0 || from >= tree.len() {
        Ok(scenes)
    } else if tree[from].name != "library_visual_scenes"@ {
        scenes_from::<S>(tree, from + 1, scenes)
    } else {
        match library_scenes_from::<S>(tree, tree[from].child_list(), 0, scenes) {
            Err(error) => Err(error),
            Ok(next) => scenes_from::<S>(tree, from + 1, next),
        }
    }
}

/// What a tree decodes to as a document: its geometries, then its
/// animations, its controllers and its scenes; the first entry of a library
/// that does not decode fails the document.
pub open spec fn document_model<S: Scalar>(tree: Seq<NodeModel>) -> Result<DocumentModel<S>, Error> {
    match geometries_from::<S>(tree, 0, Seq::empty()) {
        Err(error) => Err(error),
        Ok(geometries) => match animations_from::<S>(tree, 0, Seq::empty()) {
            Err(error) => Err(error),
            Ok(animations) => match skins_from::<S>(tree, 0, Seq::empty()) {
                Err(error) => Err(error),
                Ok(skins) => match scenes_from::<S>(tree, 0, Seq::empty()) {
                    Err(error) => Err(error),
                    Ok(scenes) => Ok(DocumentModel { geometries, animations, skins, scenes }),
                },
            },
        }
    }
}

/// What the text of a document decodes to: the tree that its events build,
/// decoded as a document.
pub open spec fn text_model<S: Scalar>(text: Seq<char>) -> Result<DocumentModel<S>, Error> {
    match build_model(document_events(text)) {
        None => Err(fault(ErrorKind::Structure, Stage::Xml)),
        Some(tree) => document_model::<S>(tree),
    }
}

/// The id of the root joint of a skeleton.
pub open spec fn root_id<S>(skeleton: SkeletonModel<S>) -> Option<Seq<char>> {
    if skeleton.nodes.len() > 0 {
        Some(skeleton.nodes[0].id)
    } else {
        None
    }
}

/// The first skeleton from position `from` on whose root joint has the id
/// `id`.
pub open spec fn rooted_from<S>(skeletons: Seq<SkeletonModel<S>>, id: Seq<char>, from: int) -> Option<
    int,
>
    decreases skeletons.len() - from,
{
    if from < 0 || from >= skeletons.len() {
        None
    } else if root_id(skeletons[from]) == Some(id) {
        Some(from)
    } else {
        rooted_from(skeletons, id, from + 1)
    }
}

/// A skin with the skeleton it is bound to and the mesh it binds.
pub type Triple<S> = (SkinModel<S>, SkeletonModel<S>, MeshModel<Vector3<S>, S>);

impl<S> DocumentModel<S> {
    /// What the use of a controller resolves to: the skin under the id
    /// that its url names, the mesh under the id that the skin names, and
    /// the first of `skeletons` whose root joint has the id that the
    /// controller names. `None` where one of the three is not there.
    pub open spec fn triple(
        self,
        skeletons: Seq<SkeletonModel<S>>,
        controller: InstanceControllerModel,
    ) -> Option<Triple<S>> {
        match lookup(self.skins, reference_target(controller.url)) {
            None => None,
            Some(skin) => match lookup(self.geometries, reference_target(skin.source)) {
                None => None,
                Some(mesh) => match rooted_from(
                    skeletons,
                    reference_target(controller.skeleton),
                    0,
                ) {
                    None => None,
                    Some(position) => Some((skin, skeletons[position], mesh)),
                },
            },
        }
    }

    /// What the first `to` of `controllers` resolve to, in order; a use
    /// that does not resolve is left out.
    pub open spec fn triples_up_to(
        self,
        skeletons: Seq<SkeletonModel<S>>,
        controllers: Seq<InstanceControllerModel>,
        to: int,
    ) -> Seq<Triple<S>>
        decreases to,
    {
        if to <= 0 {
            Seq::empty()
        } else {
            let before = self.triples_up_to(skeletons, controllers, to - 1);
            match self.triple(skeletons, controllers[to - 1]) {
                Some(triple) => before.push(triple),
                None => before,
            }
        }
    }

    /// The skins used in scene `n`, each with its skeleton and its mesh, in
    /// the order of their use; none where there is no such scene.
    pub open spec fn scene_triples(self, n: int) -> Seq<Triple<S>> {
        if 0 <= n < self.scenes.len() {
            let controllers = controllers_among(self.scenes[n].nodes, 0);
            self.triples_up_to(
                skeletons_among(self.scenes[n].nodes, 0),
                controllers,
                controllers.len() as int,
            )
        } else {
            Seq::empty()
        }
    }

    /// The animations among the first `to` that drive `target`, in order.
    pub open spec fn targeting_up_to(self, target: Seq<char>, to: int) -> Seq<AnimationModel<S>>
        decreases to,
    {
        if to <= 0 {
            Seq::empty()
        } else {
            let before = self.targeting_up_to(target, to - 1);
            if self.animations[to - 1].1.has_target(target) {
                before.push(self.animations[to - 1].1)
            } else {
                before
            }
        }
    }

    /// The skins among the first `to` that bind the mesh `name`, each with
    /// its id, in order.
    pub open spec fn binding_up_to(self, name: Seq<char>, to: int) -> Seq<(Seq<char>, SkinModel<S>)>
        decreases to,
    {
        if to <= 0 {
            Seq::empty()
        } else {
            let before = self.binding_up_to(name, to - 1);
            if reference_target(self.skins[to - 1].1.source) == name {
                before.push(self.skins[to - 1])
            } else {
                before
            }
        }
    }

    /// The skeletons embedded in the first `to` scenes, in order.
    pub open spec fn skeletons_up_to(self, to: int) -> Seq<SkeletonModel<S>>
        decreases to,
    {
        if to <= 0 {
            Seq::empty()
        } else {
            self.skeletons_up_to(to - 1) + skeletons_among(self.scenes[to - 1].nodes, 0)
        }
    }
}

/// The models of a list of triples.
pub open spec fn triples_view<S>(triples: Seq<(&Skin<S>, &Skeleton<S>, &Mesh<S>)>) -> Seq<Triple<S>> {
    Seq::new(triples.len(), |i: int| (triples[i].0@, triples[i].1@, triples[i].2@))
}

/// The models of a list of animations.
pub open spec fn animations_view<S>(animations: Seq<&Animation<S>>) -> Seq<AnimationModel<S>> {
    Seq::new(animations.len(), |i: int| animations[i]@)
}

/// The models of a list of entries.
pub open spec fn entries_view<V: View>(entries: Seq<(&String, &V)>) -> Seq<(Seq<char>, V::V)> {
    Seq::new(entries.len(), |i: int| (entries[i].0@, entries[i].1@))
}

/// The first of `skeletons` whose root joint has the id `id`.
fn find_rooted<'a, S: Scalar>(skeletons: &Vec<&'a Skeleton<S>>, id: &str) -> (found: Option<
    &'a Skeleton<S>,
>)
    ensures
        match found {
            Some(skeleton) => rooted_from(skeletons_view(skeletons@), id@, 0) matches Some(position)
                && skeletons_view(skeletons@)[position] == skeleton@,
            None => rooted_from(skeletons_view(skeletons@), id@, 0) is None,
        },
{
    let mut i: usize = 0;
    while i < skeletons.len()
        invariant
            i <= skeletons@.len(),
            rooted_from(skeletons_view(skeletons@), id@, 0) == rooted_from(
                skeletons_view(skeletons@),
                id@,
                i as int,
            ),
        decreases skeletons@.len() - i,
    {
        let skeleton = skeletons[i];
        assert(skeletons_view(skeletons@)[i as int] == skeleton@);
        match skeleton.first_node() {
            Some(root) => {
                if same_text(root.id.as_str(), id) {
                    return Some(skeleton);
                }
            },
            None => {},
        }
        i += 1;
    }
    None
}

impl<S: Scalar> Document<S> {
    /// The document without entries.
    pub fn new() -> (document: Document<S>)
        ensures
            document@ == (DocumentModel::<S> {
                geometries: Seq::empty(),
                animations: Seq::empty(),
                skins: Seq::empty(),
                scenes: Seq::empty(),
            }),
    {
        let document = Document {
            geometries: IdMap::new(),
            animations: IdMap::new(),
            skins: IdMap::new(),
            scenes: Vec::new(),
        };
        assert(scenes_model(document.scenes@) =~= Seq::empty());
        document
    }

    /// The mesh under the id `name`.
    pub fn mesh_with_name<'a>(&'a self, name: &str) -> (mesh: Option<&'a Mesh<S>>)
        ensures
            match mesh {
                Some(found) => lookup(self@.geometries, name@) == Some(found@),
                None => lookup(self@.geometries, name@) is None,
            },
    {
        self.geometries.get(name)
    }

    /// The skin under the id `name`.
    pub fn get_skin_with_name<'a>(&'a self, name: &str) -> (skin: Option<&'a Skin<S>>)
        ensures
            match skin {
                Some(found) => lookup(self@.skins, name@) == Some(found@),
                None => lookup(self@.skins, name@) is None,
            },
    {
        self.skins.get(name)
    }

    /// The animations that drive `target`, in the order in which their ids
    /// came.
    pub fn animations_with_target<'a>(&'a self, target: &str) -> (found: Vec<&'a Animation<S>>)
        ensures
            animations_view(found@) == self@.targeting_up_to(
                target@,
                self@.animations.len() as int,
            ),
    {
        let mut found: Vec<&'a Animation<S>> = Vec::new();
        assert(animations_view(found@) =~= Seq::empty());
        let mut i: usize = 0;
        while i < self.animations.len()
            invariant
                i <= self@.animations.len(),
                animations_view(found@) == self@.targeting_up_to(target@, i as int),
            decreases self@.animations.len() - i,
        {
            match self.animations.entry(i) {
                Some((_, animation)) => {
                    if animation.has_target(target) {
                        let ghost before = animations_view(found@);
                        found.push(animation);
                        assert(animations_view(found@) =~= before.push(animation@));
                    }
                },
                None => {},
            }
            i += 1;
        }
        found
    }

    /// The skeletons embedded in scene `n`, in document order; none where
    /// there is no such scene.
    pub fn nth_scene_skeletons(&self, n: usize) -> (skeletons: Vec<&Skeleton<S>>)
        ensures
            skeletons_view(skeletons@) == if n < self@.scenes.len() {
                skeletons_among(self@.scenes[n as int].nodes, 0)
            } else {
                Seq::empty()
            },
    {
        if n < self.scenes.len() {
            assert(self@.scenes[n as int] == self.scenes@[n as int]@);
            self.scenes[n].get_skeletons()
        } else {
            let skeletons: Vec<&Skeleton<S>> = Vec::new();
            assert(skeletons_view(skeletons@) =~= Seq::empty());
            skeletons
        }
    }

    /// The skeletons embedded in the scenes, in document order.
    pub fn get_skeletons(&self) -> (skeletons: Vec<&Skeleton<S>>)
        ensures
            skeletons_view(skeletons@) == self@.skeletons_up_to(self@.scenes.len() as int),
    {
        let mut skeletons: Vec<&Skeleton<S>> = Vec::new();
        assert(skeletons_view(skeletons@) =~= Seq::empty());
        let mut i: usize = 0;
        while i < self.scenes.len()
            invariant
                i <= self.scenes@.len(),
                skeletons_view(skeletons@) == self@.skeletons_up_to(i as int),
            decreases self.scenes@.len() - i,
        {
            assert(self@.scenes[i as int] == self.scenes@[i as int]@);
            let ghost before = skeletons_view(skeletons@);
            let mut more = self.scenes[i].get_skeletons();
            let ghost added = skeletons_view(more@);
            skeletons.append(&mut more);
            assert(skeletons_view(skeletons@) =~= before + added);
            i += 1;
        }
        skeletons
    }

    /// Decodes the geometry libraries of `tree` and puts each mesh under
    /// its id; a later mesh with the same id takes the place of the
    /// earlier. On failure nothing changes.
    #[verifier::loop_isolation(false)]
    pub fn parse_geometries(&mut self, tree: &XmlTree) -> (parsed: Result<(), Error>)
        ensures
            final(self).animations == old(self).animations,
            final(self).skins == old(self).skins,
            final(self).scenes == old(self).scenes,
            match parsed {
                Ok(_) => geometries_from::<S>(tree@, 0, old(self)@.geometries) == Ok::<
                    Seq<(Seq<char>, MeshModel<Vector3<S>, S>)>,
                    Error,
                >(final(self)@.geometries),
                Err(error) => geometries_from::<S>(tree@, 0, old(self)@.geometries) == Err::<
                    Seq<(Seq<char>, MeshModel<Vector3<S>, S>)>,
                    Error,
                >(error) && *final(self) == *old(self),
            },
    {
        let ghost start = self@.geometries;
        let none: Vec<usize> = Vec::new();
        let mut pending = Vec::new();
        assert(entries_model(pending@) =~= Seq::empty());
        let mut n: usize = 0;
        while n < tree.len()
            invariant
                n <= tree@.len(),
                *self == *old(self),
                geometries_from::<S>(tree@, 0, start) == geometries_from::<S>(
                    tree@,
                    n as int,
                    inserted_up_to(start, entries_model(pending@), pending@.len() as int),
                ),
            decreases tree@.len() - n,
        {
            let element = tree.get_node(n).unwrap();
            if has_tag(element, "library_geometries") {
                let children = children_or_none(element, &none);
                let ghost first = inserted_up_to(
                    start,
                    entries_model(pending@),
                    pending@.len() as int,
                );
                let mut i: usize = 0;
                while i < children.len()
                    invariant
                        i <= children@.len(),
                        *self == *old(self),
                        library_geometries_from::<S>(tree@, children@, 0, first) == library_geometries_from::<S>(
                            tree@,
                            children@,
                            i as int,
                            inserted_up_to(start, entries_model(pending@), pending@.len() as int),
                        ),
                    decreases children@.len() - i,
                {
                    let child = child_at(tree, children, i, Ghost(n as int));
                    if has_tag(child, "geometry") {
                        let geometry = Geometry::<S>::parse_geometry(children[i], tree)?;
                        let ghost before = entries_model(pending@);
                        pending.push((geometry.id, geometry.mesh));
                        proof {
                            let last = entries_model(pending@)[before.len() as int];
                            assert(entries_model(pending@) =~= before.push(last));
                            lemma_inserted_up_to_push(start, before, last, before.len() as int);
                        }
                    }
                    i += 1;
                }
            }
            n += 1;
        }
        let ghost all = entries_model(pending@);
        for entry in it: pending
            invariant
                it.seq() == pending@,
                all == entries_model(pending@),
                self.animations == old(self).animations,
                self.skins == old(self).skins,
                self.scenes == old(self).scenes,
                self@.geometries == inserted_up_to(start, all, it.index() as int),
        {
            assert(all[it.index() as int] == (entry.0@, entry.1@));
            self.geometries.insert(entry.0, entry.1);
        }
        Ok(())
    }

    /// Decodes the animation libraries of `tree` and puts each animation
    /// under its id. On failure nothing changes.
    #[verifier::loop_isolation(false)]
    pub fn parse_animations(&mut self, tree: &XmlTree) -> (parsed: Result<(), Error>)
        ensures
            final(self).geometries == old(self).geometries,
            final(self).skins == old(self).skins,
            final(self).scenes == old(self).scenes,
            match parsed {
                Ok(_) => animations_from::<S>(tree@, 0, old(self)@.animations) == Ok::<
                    Seq<(Seq<char>, AnimationModel<S>)>,
                    Error,
                >(final(self)@.animations),
                Err(error) => animations_from::<S>(tree@, 0, old(self)@.animations) == Err::<
                    Seq<(Seq<char>, AnimationModel<S>)>,
                    Error,
                >(error) && *final(self) == *old(self),
            },
    {
        let ghost start = self@.animations;
        let none: Vec<usize> = Vec::new();
        let mut pending = Vec::new();
        assert(entries_model(pending@) =~= Seq::empty());
        let mut n: usize = 0;
        while n < tree.len()
            invariant
                n <= tree@.len(),
                *self == *old(self),
                animations_from::<S>(tree@, 0, start) == animations_from::<S>(
                    tree@,
                    n as int,
                    inserted_up_to(start, entries_model(pending@), pending@.len() as int),
                ),
            decreases tree@.len() - n,
        {
            let element = tree.get_node(n).unwrap();
            if has_tag(element, "library_animations") {
                let children = children_or_none(element, &none);
                let ghost first = inserted_up_to(
                    start,
                    entries_model(pending@),
                    pending@.len() as int,
                );
                let mut i: usize = 0;
                while i < children.len()
                    invariant
                        i <= children@.len(),
                        *self == *old(self),
                        library_animations_from::<S>(tree@, children@, 0, first) == library_animations_from::<S>(
                            tree@,
                            children@,
                            i as int,
                            inserted_up_to(start, entries_model(pending@), pending@.len() as int),
                        ),
                    decreases children@.len() - i,
                {
                    let child = child_at(tree, children, i, Ghost(n as int));
                    if has_tag(child, "animation") {
                        let animation = Animation::<S>::parse_animation(children[i], tree)?;
                        let id = animation.id.clone();
                        let ghost before = entries_model(pending@);
                        pending.push((id, animation));
                        proof {
                            let last = entries_model(pending@)[before.len() as int];
                            assert(entries_model(pending@) =~= before.push(last));
                            lemma_inserted_up_to_push(start, before, last, before.len() as int);
                        }
                    }
                    i += 1;
                }
            }
            n += 1;
        }
        let ghost all = entries_model(pending@);
        for entry in it: pending
            invariant
                it.seq() == pending@,
                all == entries_model(pending@),
                self.geometries == old(self).geometries,
                self.skins == old(self).skins,
                self.scenes == old(self).scenes,
                self@.animations == inserted_up_to(start, all, it.index() as int),
        {
            assert(all[it.index() as int] == (entry.0@, entry.1@));
            self.animations.insert(entry.0, entry.1);
        }
        Ok(())
    }

    /// Decodes the controller libraries of `tree` and puts each skin under
    /// the id of its controller. On failure nothing changes.
    #[verifier::loop_isolation(false)]
    pub fn parse_skins(&mut self, tree: &XmlTree) -> (parsed: Result<(), Error>)
        ensures
            final(self).geometries == old(self).geometries,
            final(self).animations == old(self).animations,
            final(self).scenes == old(self).scenes,
            match parsed {
                Ok(_) => skins_from::<S>(tree@, 0, old(self)@.skins) == Ok::<
                    Seq<(Seq<char>, SkinModel<S>)>,
                    Error,
                >(final(self)@.skins),
                Err(error) => skins_from::<S>(tree@, 0, old(self)@.skins) == Err::<
                    Seq<(Seq<char>, SkinModel<S>)>,
                    Error,
                >(error) && *final(self) == *old(self),
            },
    {
        let ghost start = self@.skins;
        let none: Vec<usize> = Vec::new();
        let mut pending = Vec::new();
        assert(entries_model(pending@) =~= Seq::empty());
        let mut n: usize = 0;
        while n < tree.len()
            invariant
                n <= tree@.len(),
                *self == *old(self),
                skins_from::<S>(tree@, 0, start) == skins_from::<S>(
                    tree@,
                    n as int,
                    inserted_up_to(start, entries_model(pending@), pending@.len() as int),
                ),
            decreases tree@.len() - n,
        {
            let element = tree.get_node(n).unwrap();
            if has_tag(element, "library_controllers") {
                let children = children_or_none(element, &none);
                let ghost first = inserted_up_to(
                    start,
                    entries_model(pending@),
                    pending@.len() as int,
                );
                let mut i: usize = 0;
                while i < children.len()
                    invariant
                        i <= children@.len(),
                        *self == *old(self),
                        library_skins_from::<S>(tree@, children@, 0, first) == library_skins_from::<S>(
                            tree@,
                            children@,
                            i as int,
                            inserted_up_to(start, entries_model(pending@), pending@.len() as int),
                        ),
                    decreases children@.len() - i,
                {
                    let child = child_at(tree, children, i, Ghost(n as int));
                    if has_tag(child, "controller") {
                        let controller = Controller::<S>::parse_controller(children[i], tree)?;
                        let ghost before = entries_model(pending@);
                        pending.push((controller.id, controller.skin));
                        proof {
                            let last = entries_model(pending@)[before.len() as int];
                            assert(entries_model(pending@) =~= before.push(last));
                            lemma_inserted_up_to_push(start, before, last, before.len() as int);
                        }
                    }
                    i += 1;
                }
            }
            n += 1;
        }
        let ghost all = entries_model(pending@);
        for entry in it: pending
            invariant
                it.seq() == pending@,
                all == entries_model(pending@),
                self.geometries == old(self).geometries,
                self.animations == old(self).animations,
                self.scenes == old(self).scenes,
                self@.skins == inserted_up_to(start, all, it.index() as int),
        {
            assert(all[it.index() as int] == (entry.0@, entry.1@));
            self.skins.insert(entry.0, entry.1);
        }
        Ok(())
    }

    /// Decodes the scene libraries of `tree` and appends each scene. On
    /// failure nothing changes.
    #[verifier::loop_isolation(false)]
    pub fn parse_visual_scenes(&mut self, tree: &XmlTree) -> (parsed: Result<(), Error>)
        ensures
            final(self).geometries == old(self).geometries,
            final(self).animations == old(self).animations,
            final(self).skins == old(self).skins,
            match parsed {
                Ok(_) => scenes_from::<S>(tree@, 0, old(self)@.scenes) == Ok::<
                    Seq<VisualSceneModel<S>>,
                    Error,
                >(final(self)@.scenes),
                Err(error) => scenes_from::<S>(tree@, 0, old(self)@.scenes) == Err::<
                    Seq<VisualSceneModel<S>>,
                    Error,
                >(error) && *final(self) == *old(self),
            },
    {
        let ghost start = self@.scenes;
        let none: Vec<usize> = Vec::new();
        let mut pending: Vec<VisualScene<S>> = Vec::new();
        assert(start + scenes_model(pending@) =~= start);
        let mut n: usize = 0;
        while n < tree.len()
            invariant
                n <= tree@.len(),
                *self == *old(self),
                scenes_from::<S>(tree@, 0, start) == scenes_from::<S>(
                    tree@,
                    n as int,
                    start + scenes_model(pending@),
                ),
            decreases tree@.len() - n,
        {
            let element = tree.get_node(n).unwrap();
            if has_tag(element, "library_visual_scenes") {
                let children = children_or_none(element, &none);
                let ghost first = start + scenes_model(pending@);
                let mut i: usize = 0;
                while i < children.len()
                    invariant
                        i <= children@.len(),
                        *self == *old(self),
                        library_scenes_from::<S>(tree@, children@, 0, first)
                            == library_scenes_from::<S>(
                            tree@,
                            children@,
                            i as int,
                            start + scenes_model(pending@),
                        ),
                    decreases children@.len() - i,
                {
                    let child = child_at(tree, children, i, Ghost(n as int));
                    if has_tag(child, "visual_scene") {
                        let scene = VisualScene::<S>::parse_scene(children[i], tree)?;
                        let ghost before = scenes_model(pending@);
                        let ghost model = scene@;
                        pending.push(scene);
                        assert(start + scenes_model(pending@) =~= (start + before).push(model));
                    }
                    i += 1;
                }
            }
            n += 1;
        }
        let ghost more = scenes_model(pending@);
        self.scenes.append(&mut pending);
        assert(self@.scenes =~= start + more);
        Ok(())
    }

    /// The meshes with their ids, in the order in which the ids came.
    pub fn mesh_iter(&self) -> (meshes: Vec<(&String, &Mesh<S>)>)
        ensures
            entries_view(meshes@) == self@.geometries,
    {
        let mut meshes: Vec<(&String, &Mesh<S>)> = Vec::new();
        let mut i: usize = 0;
        while i < self.geometries.len()
            invariant
                i <= self@.geometries.len(),
                meshes@.len() == i,
                forall|k: int| 0 <= k < i ==> (#[trigger] entries_view(meshes@)[k]) == self@.geometries[k],
            decreases self@.geometries.len() - i,
        {
            match self.geometries.entry(i) {
                Some(entry) => {
                    let ghost before = meshes@;
                    meshes.push(entry);
                    assert forall|k: int| 0 <= k < i + 1 implies (#[trigger] entries_view(
                        meshes@,
                    )[k]) == self@.geometries[k] by {
                        if k < i {
                            assert(entries_view(before)[k] == self@.geometries[k]);
                        }
                    }
                },
                None => {
                    assert(false);
                },
            }
            i += 1;
        }
        assert(entries_view(meshes@) =~= self@.geometries);
        meshes
    }

    /// The skins that bind the mesh with id `name`, each with its id, in
    /// the order in which the ids came.
    pub fn skin_with_source_iter<'a>(&'a self, name: &str) -> (skins: Vec<(&'a String, &'a Skin<S>)>)
        ensures
            entries_view(skins@) == self@.binding_up_to(name@, self@.skins.len() as int),
    {
        let mut skins: Vec<(&'a String, &'a Skin<S>)> = Vec::new();
        assert(entries_view(skins@) =~= Seq::empty());
        let mut i: usize = 0;
        while i < self.skins.len()
            invariant
                i <= self@.skins.len(),
                entries_view(skins@) == self@.binding_up_to(name@, i as int),
            decreases self@.skins.len() - i,
        {
            match self.skins.entry(i) {
                Some((id, skin)) => {
                    if skin.is_for_mesh(name) {
                        let ghost before = entries_view(skins@);
                        skins.push((id, skin));
                        assert(entries_view(skins@) =~= before.push((id@, skin@)));
                    }
                },
                None => {},
            }
            i += 1;
        }
        skins
    }

    /// The skins used in scene `n`, each with the skeleton it is bound to
    /// and the mesh it binds, in the order of their use. A use of which the
    /// skin, the mesh or the skeleton is not found is left out.
    pub fn skin_skeleton_mesh_iter(&self, n: usize) -> (triples: Vec<
        (&Skin<S>, &Skeleton<S>, &Mesh<S>),
    >)
        ensures
            triples_view(triples@) == self@.scene_triples(n as int),
    {
        let mut triples: Vec<(&Skin<S>, &Skeleton<S>, &Mesh<S>)> = Vec::new();
        assert(triples_view(triples@) =~= Seq::empty());
        if n >= self.scenes.len() {
            return triples;
        }
        assert(self@.scenes[n as int] == self.scenes@[n as int]@);
        let skeletons = self.scenes[n].get_skeletons();
        let controllers = self.scenes[n].get_controllers();
        let ghost uses = controllers_view(controllers@);
        let ghost joints = skeletons_view(skeletons@);
        let mut i: usize = 0;
        while i < controllers.len()
            invariant
                i <= controllers@.len(),
                uses == controllers_view(controllers@),
                joints == skeletons_view(skeletons@),
                triples_view(triples@) == self@.triples_up_to(joints, uses, i as int),
            decreases controllers@.len() - i,
        {
            let controller = controllers[i];
            assert(uses[i as int] == controller@);
            let skin_id = strip_marker(controller.url.as_str());
            match self.skins.get(skin_id.as_str()) {
                Some(skin) => {
                    let mesh_id = strip_marker(skin.source.as_str());
                    match self.geometries.get(mesh_id.as_str()) {
                        Some(mesh) => {
                            let root = strip_marker(controller.skeleton.as_str());
                            match find_rooted(&skeletons, root.as_str()) {
                                Some(skeleton) => {
                                    let ghost before = triples_view(triples@);
                                    triples.push((skin, skeleton, mesh));
                                    assert(triples_view(triples@) =~= before.push(
                                        (skin@, skeleton@, mesh@),
                                    ));
                                },
                                None => {},
                            }
                        },
                        None => {},
                    }
                },
                None => {},
            }
            i += 1;
        }
        triples
    }

    /// Decodes the libraries of `tree` into a document.
    pub fn parse_document(tree: &XmlTree) -> (parsed: Result<Document<S>, Error>)
        ensures
            match parsed {
                Ok(document) => document_model::<S>(tree@) == Ok::<DocumentModel<S>, Error>(
                    document@,
                ),
                Err(error) => document_model::<S>(tree@) == Err::<DocumentModel<S>, Error>(error),
            },
    {
        let mut document = Document::<S>::new();
        document.parse_geometries(tree)?;
        document.parse_animations(tree)?;
        document.parse_skins(tree)?;
        document.parse_visual_scenes(tree)?;
        Ok(document)
    }

    /// Decodes the document written in `text`.
    pub fn parse_from_text(text: &str) -> (parsed: Result<Document<S>, Error>)
        ensures
            match parsed {
                Ok(document) => text_model::<S>(text@) == Ok::<DocumentModel<S>, Error>(document@),
                Err(error) => text_model::<S>(text@) == Err::<DocumentModel<S>, Error>(error),
            },
    {
        let tree = match XmlTree::parse_xml(text) {
            Ok(tree) => tree,
            Err(_) => {
                return Err(Error::new(ErrorKind::Structure, Stage::Xml));
            },
        };
        Document::<S>::parse_document(&tree)
    }
}

} // verus!
