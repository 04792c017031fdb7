//! A geometry of the geometry library: a mesh under an id.

use crate::collada::error::{Error, ErrorKind, Stage};
use crate::collada::mesh::{generic_mesh_model, GenericMesh, MeshModel};
use crate::collada::util::{
    child_at, children_or_none, fault, has_tag, required, required_attribute,
};
use crate::collada::Mesh;
use crate::math::{Scalar, Vector3};
use crate::xml_tree::node::NodeModel;
use crate::xml_tree::tree::XmlTree;
use vstd::prelude::*;

verus! {

/// A geometry: its id and its mesh.
#[derive(Debug)]
pub struct Geometry<S> {
    pub id: String,
    pub mesh: Mesh<S>,
}

/// The model of a geometry.
pub struct GeometryModel<S> {
    pub id: Seq<char>,
    pub mesh: MeshModel<Vector3<S>, S>,
}

impl<S> View for Geometry<S> {
    type V = GeometryModel<S>;

    open spec fn view(&self) -> GeometryModel<S> {
        GeometryModel { id: self.id@, mesh: self.mesh@ }
    }
}

/// The mesh of the `mesh` child among `children` from position `from` on,
/// given the one found before; a second `mesh` child fails.
pub open spec fn geometry_mesh_from<S: Scalar>(
    tree: Seq<NodeModel>,
    children: Seq<usize>,
    from: int,
    found: Option<MeshModel<Vector3<S>, S>>,
) -> Result<Option<MeshModel<Vector3<S>, S>>, Error>
    decreases children.len() - from,
{
    if from < 0 || from >= children.len() {
        Ok(found)
    } else if tree[children[from] as int].name != "mesh"@ {
        geometry_mesh_from::<S>(tree, children, from + 1, found)
    } else if found is Some {
        Err(fault(ErrorKind::Structure, Stage::Geometry))
    } else {
        match generic_mesh_model::<Vector3<S>, S>(tree, children[from] as int) {
            Err(error) => Err(error),
            Ok(mesh) => geometry_mesh_from::<S>(tree, children, from + 1, Some(mesh)),
        }
    }
}

/// What the element at `node` decodes to as a geometry: its tag must be
/// `geometry`, it must have an id and exactly one `mesh`
/// child, which must decode.
pub open spec fn geometry_model<S: Scalar>(tree: Seq<NodeModel>, node: int) -> Result<
    GeometryModel<S>,
    Error,
> {
    if !(0 <= node < tree.len()) || tree[node].name != "geometry"@ {
        Err(fault(ErrorKind::Structure, Stage::Geometry))
    } else {
        match required(tree[node], "id", Stage::Geometry) {
            Err(error) => Err(error),
            Ok(id) => match geometry_mesh_from::<S>(tree, tree[node].child_list(), 0, None) {
                Err(error) => Err(error),
                Ok(None) => Err(fault(ErrorKind::Structure, Stage::Geometry)),
                Ok(Some(mesh)) => Ok(GeometryModel { id, mesh }),
            },
        }
    }
}

impl<S: Scalar> Geometry<S> {
    /// Decodes the `geometry` element at `node`.
    #[verifier::loop_isolation(false)]
    pub fn parse_geometry(node: usize, tree: &XmlTree) -> (parsed: Result<Geometry<S>, Error>)
        ensures
            match parsed {
                Ok(geometry) => geometry_model::<S>(tree@, node as int) == Ok::<
                    GeometryModel<S>,
                    Error,
                >(geometry@),
                Err(error) => geometry_model::<S>(tree@, node as int) == Err::<
                    GeometryModel<S>,
                    Error,
                >(error),
            },
    {
        let element = match tree.get_node(node) {
            Some(element) => element,
            None => {
                return Err(Error::new(ErrorKind::Structure, Stage::Geometry));
            },
        };
        if !has_tag(element, "geometry") {
            return Err(Error::new(ErrorKind::Structure, Stage::Geometry));
        }
        let id = required_attribute(element, "id", Stage::Geometry)?;
        let none: Vec<usize> = Vec::new();
        let children = children_or_none(element, &none);
        let mut mesh: Option<Mesh<S>> = None;
        let mut i: usize = 0;
        while i < children.len()
            invariant
                i <= children@.len(),
                geometry_mesh_from::<S>(tree@, children@, 0, None) == geometry_mesh_from::<S>(
                    tree@,
                    children@,
                    i as int,
                    match mesh {
                        Some(found) => Some(found@),
                        None => None,
                    },
                ),
            decreases children@.len() - i,
        {
            let child = child_at(tree, children, i, Ghost(node as int));
            if has_tag(child, "mesh") {
                if mesh.is_some() {
                    return Err(Error::new(ErrorKind::Structure, Stage::Geometry));
                }
                mesh = Some(GenericMesh::<Vector3<S>, S>::parse_mesh(children[i], tree)?);
            }
            i += 1;
        }
        match mesh {
            Some(mesh) => Ok(Geometry { id: id.to_owned(), mesh }),
            None => Err(Error::new(ErrorKind::Structure, Stage::Geometry)),
        }
    }
}

} // verus!
