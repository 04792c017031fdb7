//! A controller of the controller library: a skin under an id.

use crate::collada::error::{Error, ErrorKind, Stage};
use crate::collada::skin::{parsed_skin_model, Skin, SkinModel};
use crate::collada::util::{
    child_at, children_or_none, fault, has_tag, required, required_attribute,
};
use crate::math::Scalar;
use crate::text::{reference_target, strip_marker};
use crate::xml_tree::node::NodeModel;
use crate::xml_tree::tree::XmlTree;
use vstd::prelude::*;

verus! {

/// A controller: its id and its skin.
#[derive(Debug)]
pub struct Controller<S> {
    pub id: String,
    pub skin: Skin<S>,
}

/// The model of a controller.
pub struct ControllerModel<S> {
    pub id: Seq<char>,
    pub skin: SkinModel<S>,
}

impl<S> View for Controller<S> {
    type V = ControllerModel<S>;

    open spec fn view(&self) -> ControllerModel<S> {
        ControllerModel { id: self.id@, skin: self.skin@ }
    }
}

/// The skin of the `skin` child among `children` from position `from` on,
/// given the one found before; a second `skin` child fails.
pub open spec fn controller_skin_from<S: Scalar>(
    tree: Seq<NodeModel>,
    children: Seq<usize>,
    from: int,
    id: Seq<char>,
    found: Option<SkinModel<S>>,
) -> Result<Option<SkinModel<S>>, Error>
    decreases children.len() - from,
{
    if from < 0 || from >= children.len() {
        Ok(found)
    } else if tree[children[from] as int].name != "skin"@ {
        controller_skin_from::<S>(tree, children, from + 1, id, found)
    } else if found is Some {
        Err(fault(ErrorKind::Structure, Stage::Controller))
    } else {
        match parsed_skin_model::<S>(tree, children[from] as int, id) {
            Err(error) => Err(error),
            Ok(skin) => controller_skin_from::<S>(tree, children, from + 1, id, Some(skin)),
        }
    }
}

/// What the element at `node` decodes to as a controller: its tag must be
/// `controller`, it must have an id and exactly one `skin`
/// child, which must decode.
pub open spec fn controller_model<S: Scalar>(tree: Seq<NodeModel>, node: int) -> Result<
    ControllerModel<S>,
    Error,
> {
    if !(0 <= node < tree.len()) || tree[node].name != "controller"@ {
        Err(fault(ErrorKind::Structure, Stage::Controller))
    } else {
        match required(tree[node], "id", Stage::Controller) {
            Err(error) => Err(error),
            Ok(id) => match controller_skin_from::<S>(tree, tree[node].child_list(), 0, id, None) {
                Err(error) => Err(error),
                Ok(None) => Err(fault(ErrorKind::Structure, Stage::Controller)),
                Ok(Some(skin)) => Ok(ControllerModel { id, skin }),
            },
        }
    }
}

impl<S: Scalar> Controller<S> {
    /// The id of the mesh that the skin binds: its reference without the
    /// marker.
    pub fn mesh_source(&self) -> (id: String)
        ensures
            id@ == reference_target(self@.skin.source),
    {
        strip_marker(self.skin.source.as_str())
    }

    /// Decodes the `controller` element at `node`.
    #[verifier::loop_isolation(false)]
    pub fn parse_controller(node: usize, tree: &XmlTree) -> (parsed: Result<Controller<S>, Error>)
        ensures
            match parsed {
                Ok(controller) => controller_model::<S>(tree@, node as int) == Ok::<
                    ControllerModel<S>,
                    Error,
                >(controller@),
                Err(error) => controller_model::<S>(tree@, node as int) == Err::<
                    ControllerModel<S>,
                    Error,
                >(error),
            },
    {
        let element = match tree.get_node(node) {
            Some(element) => element,
            None => {
                return Err(Error::new(ErrorKind::Structure, Stage::Controller));
            },
        };
        if !has_tag(element, "controller") {
            return Err(Error::new(ErrorKind::Structure, Stage::Controller));
        }
        let id = required_attribute(element, "id", Stage::Controller)?;
        let none: Vec<usize> = Vec::new();
        let children = children_or_none(element, &none);
        let mut skin: Option<Skin<S>> = None;
        let mut i: usize = 0;
        while i < children.len()
            invariant
                i <= children@.len(),
                controller_skin_from::<S>(tree@, children@, 0, id@, None)
                    == controller_skin_from::<S>(
                    tree@,
                    children@,
                    i as int,
                    id@,
                    match skin {
                        Some(found) => Some(found@),
                        None => None,
                    },
                ),
            decreases children@.len() - i,
        {
            let child = child_at(tree, children, i, Ghost(node as int));
            if has_tag(child, "skin") {
                if skin.is_some() {
                    return Err(Error::new(ErrorKind::Structure, Stage::Controller));
                }
                skin = Some(Skin::<S>::parse_skin(children[i], tree, id)?);
            }
            i += 1;
        }
        match skin {
            Some(skin) => Ok(Controller { id: id.to_owned(), skin }),
            None => Err(Error::new(ErrorKind::Structure, Stage::Controller)),
        }
    }
}

} // verus!
