//! The failures of decoding: what went wrong, and at which stage.

use vstd::prelude::*;
use vstd::string::StringExecFns;

verus! {

/// The four classes of decoding failure.
#[derive(Clone, Copy, Debug, PartialEq, Eq, Structural)]
pub enum ErrorKind {
    /// A wrong or missing tag, a missing mandatory attribute or child, or a
    /// child that may occur once and occurs twice.
    Structure,
    /// A token that does not parse as its target type, or a matrix literal
    /// that does not hold exactly 16 values.
    Literal,
    /// An id reference that resolves to nothing of the expected kind.
    Reference,
    /// Parts that are well formed one by one and contradict each other.
    Consistency,
}

/// The decoding stage at which a failure was found.
#[derive(Clone, Copy, Debug, PartialEq, Eq, Structural)]
pub enum Stage {
    Array,
    Mesh,
    IndexAccessor,
    DataSource,
    Accessor,
    PrimitiveIndices,
    PrimitiveElement,
    MissingSource,
    Vertices,
    MeshAssembly,
    VertexWeights,
    Skin,
    Animation,
    Transformation,
    Skeleton,
    Geometry,
    Controller,
    VisualScene,
    MissingChildren,
    SceneNode,
    Matrix,
    Xml,
}

/// A decoding failure: its class, the stage that found it and, where one is
/// to blame, the name of the offending attribute.
#[derive(Clone, Copy, Debug)]
pub struct Error {
    pub kind: ErrorKind,
    pub stage: Stage,
    pub name: Option<&'static str>,
}

impl Error {
    /// A failure of class `kind` at `stage` that blames no attribute.
    pub fn new(kind: ErrorKind, stage: Stage) -> (error: Error)
        ensures
            error == (Error { kind, stage, name: None }),
    {
        Error { kind, stage, name: None }
    }

    /// The structural failure of `stage` that blames the mandatory attribute
    /// `name`: it is missing, or its value cannot be read.
    pub fn blame(stage: Stage, name: &'static str) -> (error: Error)
        ensures
            error == (Error { kind: ErrorKind::Structure, stage, name: Some(name) }),
    {
        Error { kind: ErrorKind::Structure, stage, name: Some(name) }
    }

    /// The missing attribute that this failure blames, if it blames one.
    pub fn missing(&self) -> (missing: Option<MissingAttributeError>)
        ensures
            missing is Some <==> self.name is Some,
            missing matches Some(error) ==> error.attribute_name@ == self.name->0@,
    {
        match self.name {
            Some(name) => Some(MissingAttributeError { attribute_name: String::from_str(name) }),
            None => None,
        }
    }

    /// The text that describes the stage of this failure.
    pub fn message(&self) -> (text: String)
        ensures
            text@ == stage_message(self.stage),
    {
        match self.stage {
            Stage::Array => ArrayError.message(),
            Stage::Mesh => MeshParseError.message(),
            Stage::IndexAccessor => IndexAccessorError.message(),
            Stage::DataSource => DataSourceError.message(),
            Stage::Accessor => AccessorParseError.message(),
            Stage::PrimitiveIndices => PrimitiveIndicesError.message(),
            Stage::PrimitiveElement => PrimitiveElementError.message(),
            Stage::MissingSource => MissingSourceError.message(),
            Stage::Vertices => VerticesError.message(),
            Stage::MeshAssembly => MeshError.message(),
            Stage::VertexWeights => VertexWeightsError.message(),
            Stage::Skin => SkinParseError.message(),
            Stage::Animation => AnimationParseError.message(),
            Stage::Transformation => TransformationParseError.message(),
            Stage::Skeleton => SkeletonParseError.message(),
            Stage::Geometry => GeometryParseError.message(),
            Stage::Controller => ControllerParseError.message(),
            Stage::VisualScene => VisualSceneError.message(),
            Stage::MissingChildren => MissingChildrenError.message(),
            Stage::SceneNode => SceneNodeError.message(),
            Stage::Matrix => String::from_str("Expected length 16 array"),
            Stage::Xml => String::from_str("Invalid xml file"),
        }
    }
}

/// The text that describes a stage.
pub open spec fn stage_message(stage: Stage) -> Seq<char> {
    match stage {
        Stage::Array => "Failed to convert string into array"@,
        Stage::Mesh => "Failed to parse mesh"@,
        Stage::IndexAccessor => "Failed to parse triangle accessor"@,
        Stage::DataSource => "Failed to parse data source"@,
        Stage::Accessor => "Failed to parse accessor"@,
        Stage::PrimitiveIndices => "Failed to parse accessor"@,
        Stage::PrimitiveElement => "Failed to parse primitive element"@,
        Stage::MissingSource => "Failed to get attribute from source list"@,
        Stage::Vertices => "Failed to parse vertices"@,
        Stage::MeshAssembly => "Failed to convert into a mesh"@,
        Stage::VertexWeights => "Failed to parse vertex weights"@,
        Stage::Skin => "Failed to parse skin"@,
        Stage::Animation => "Failed to parse animation"@,
        Stage::Transformation => "Failed to parse transformation"@,
        Stage::Skeleton => "Failed to parse skeleton"@,
        Stage::Geometry => "Failed to parse geometry"@,
        Stage::Controller => "Failed to parse controller"@,
        Stage::VisualScene => "Failed to parse visual scene"@,
        Stage::MissingChildren => "Missing children"@,
        Stage::SceneNode => "Failed to parse scene node"@,
        Stage::Matrix => "Expected length 16 array"@,
        Stage::Xml => "Invalid xml file"@,
    }
}

/// The failure of its stage: a token of a literal list does not parse as its target type.
#[derive(Copy, Clone, Debug)]
pub struct ArrayError;

impl ArrayError {
    /// The text that describes this failure.
    pub fn message(&self) -> (text: String)
        ensures
            text@ == "Failed to convert string into array"@,
    {
        String::from_str("Failed to convert string into array")
    }

    /// The stage that this failure belongs to.
    pub fn stage(&self) -> (stage: Stage)
        ensures
            stage == Stage::Array,
    {
        Stage::Array
    }
}

/// The failure of its stage: a mesh element could not be read.
#[derive(Copy, Clone, Debug)]
pub struct MeshParseError;

impl MeshParseError {
    /// The text that describes this failure.
    pub fn message(&self) -> (text: String)
        ensures
            text@ == "Failed to parse mesh"@,
    {
        String::from_str("Failed to parse mesh")
    }

    /// The stage that this failure belongs to.
    pub fn stage(&self) -> (stage: Stage)
        ensures
            stage == Stage::Mesh,
    {
        Stage::Mesh
    }
}

/// The failure of its stage: the inputs of a primitive list could not be read.
#[derive(Copy, Clone, Debug)]
pub struct IndexAccessorError;

impl IndexAccessorError {
    /// The text that describes this failure.
    pub fn message(&self) -> (text: String)
        ensures
            text@ == "Failed to parse triangle accessor"@,
    {
        String::from_str("Failed to parse triangle accessor")
    }

    /// The stage that this failure belongs to.
    pub fn stage(&self) -> (stage: Stage)
        ensures
            stage == Stage::IndexAccessor,
    {
        Stage::IndexAccessor
    }
}

/// The failure of its stage: a source element could not be read.
#[derive(Copy, Clone, Debug)]
pub struct DataSourceError;

impl DataSourceError {
    /// The text that describes this failure.
    pub fn message(&self) -> (text: String)
        ensures
            text@ == "Failed to parse data source"@,
    {
        String::from_str("Failed to parse data source")
    }

    /// The stage that this failure belongs to.
    pub fn stage(&self) -> (stage: Stage)
        ensures
            stage == Stage::DataSource,
    {
        Stage::DataSource
    }
}

/// The failure of its stage: an accessor element could not be read.
#[derive(Copy, Clone, Debug)]
pub struct AccessorParseError;

impl AccessorParseError {
    /// The text that describes this failure.
    pub fn message(&self) -> (text: String)
        ensures
            text@ == "Failed to parse accessor"@,
    {
        String::from_str("Failed to parse accessor")
    }

    /// The stage that this failure belongs to.
    pub fn stage(&self) -> (stage: Stage)
        ensures
            stage == Stage::Accessor,
    {
        Stage::Accessor
    }
}

/// The failure of its stage: the index list of a primitive list could not be read.
#[derive(Copy, Clone, Debug)]
pub struct PrimitiveIndicesError;

impl PrimitiveIndicesError {
    /// The text that describes this failure.
    pub fn message(&self) -> (text: String)
        ensures
            text@ == "Failed to parse accessor"@,
    {
        String::from_str("Failed to parse accessor")
    }

    /// The stage that this failure belongs to.
    pub fn stage(&self) -> (stage: Stage)
        ensures
            stage == Stage::PrimitiveIndices,
    {
        Stage::PrimitiveIndices
    }
}

/// The failure of its stage: a primitive list could not be read.
#[derive(Copy, Clone, Debug)]
pub struct PrimitiveElementError;

impl PrimitiveElementError {
    /// The text that describes this failure.
    pub fn message(&self) -> (text: String)
        ensures
            text@ == "Failed to parse primitive element"@,
    {
        String::from_str("Failed to parse primitive element")
    }

    /// The stage that this failure belongs to.
    pub fn stage(&self) -> (stage: Stage)
        ensures
            stage == Stage::PrimitiveElement,
    {
        Stage::PrimitiveElement
    }
}

/// The failure of its stage: a referenced source is not among the sources at hand.
#[derive(Copy, Clone, Debug)]
pub struct MissingSourceError;

impl MissingSourceError {
    /// The text that describes this failure.
    pub fn message(&self) -> (text: String)
        ensures
            text@ == "Failed to get attribute from source list"@,
    {
        String::from_str("Failed to get attribute from source list")
    }

    /// The stage that this failure belongs to.
    pub fn stage(&self) -> (stage: Stage)
        ensures
            stage == Stage::MissingSource,
    {
        Stage::MissingSource
    }
}

/// The failure of its stage: a vertices element could not be read.
#[derive(Copy, Clone, Debug)]
pub struct VerticesError;

impl VerticesError {
    /// The text that describes this failure.
    pub fn message(&self) -> (text: String)
        ensures
            text@ == "Failed to parse vertices"@,
    {
        String::from_str("Failed to parse vertices")
    }

    /// The stage that this failure belongs to.
    pub fn stage(&self) -> (stage: Stage)
        ensures
            stage == Stage::Vertices,
    {
        Stage::Vertices
    }
}

/// The failure of its stage: the parts of a mesh do not fit together.
#[derive(Copy, Clone, Debug)]
pub struct MeshError;

impl MeshError {
    /// The text that describes this failure.
    pub fn message(&self) -> (text: String)
        ensures
            text@ == "Failed to convert into a mesh"@,
    {
        String::from_str("Failed to convert into a mesh")
    }

    /// The stage that this failure belongs to.
    pub fn stage(&self) -> (stage: Stage)
        ensures
            stage == Stage::MeshAssembly,
    {
        Stage::MeshAssembly
    }
}

/// The failure of its stage: a vertex_weights element could not be read.
#[derive(Copy, Clone, Debug)]
pub struct VertexWeightsError;

impl VertexWeightsError {
    /// The text that describes this failure.
    pub fn message(&self) -> (text: String)
        ensures
            text@ == "Failed to parse vertex weights"@,
    {
        String::from_str("Failed to parse vertex weights")
    }

    /// The stage that this failure belongs to.
    pub fn stage(&self) -> (stage: Stage)
        ensures
            stage == Stage::VertexWeights,
    {
        Stage::VertexWeights
    }
}

/// The failure of its stage: a skin element could not be read.
#[derive(Copy, Clone, Debug)]
pub struct SkinParseError;

impl SkinParseError {
    /// The text that describes this failure.
    pub fn message(&self) -> (text: String)
        ensures
            text@ == "Failed to parse skin"@,
    {
        String::from_str("Failed to parse skin")
    }

    /// The stage that this failure belongs to.
    pub fn stage(&self) -> (stage: Stage)
        ensures
            stage == Stage::Skin,
    {
        Stage::Skin
    }
}

/// The failure of its stage: an animation element could not be read.
#[derive(Copy, Clone, Debug)]
pub struct AnimationParseError;

impl AnimationParseError {
    /// The text that describes this failure.
    pub fn message(&self) -> (text: String)
        ensures
            text@ == "Failed to parse animation"@,
    {
        String::from_str("Failed to parse animation")
    }

    /// The stage that this failure belongs to.
    pub fn stage(&self) -> (stage: Stage)
        ensures
            stage == Stage::Animation,
    {
        Stage::Animation
    }
}

/// The failure of its stage: the transform operators of a node could not be read.
#[derive(Copy, Clone, Debug)]
pub struct TransformationParseError;

impl TransformationParseError {
    /// The text that describes this failure.
    pub fn message(&self) -> (text: String)
        ensures
            text@ == "Failed to parse transformation"@,
    {
        String::from_str("Failed to parse transformation")
    }

    /// The stage that this failure belongs to.
    pub fn stage(&self) -> (stage: Stage)
        ensures
            stage == Stage::Transformation,
    {
        Stage::Transformation
    }
}

/// The failure of its stage: a joint hierarchy could not be read.
#[derive(Copy, Clone, Debug)]
pub struct SkeletonParseError;

impl SkeletonParseError {
    /// The text that describes this failure.
    pub fn message(&self) -> (text: String)
        ensures
            text@ == "Failed to parse skeleton"@,
    {
        String::from_str("Failed to parse skeleton")
    }

    /// The stage that this failure belongs to.
    pub fn stage(&self) -> (stage: Stage)
        ensures
            stage == Stage::Skeleton,
    {
        Stage::Skeleton
    }
}

/// The failure of its stage: a geometry element could not be read.
#[derive(Copy, Clone, Debug)]
pub struct GeometryParseError;

impl GeometryParseError {
    /// The text that describes this failure.
    pub fn message(&self) -> (text: String)
        ensures
            text@ == "Failed to parse geometry"@,
    {
        String::from_str("Failed to parse geometry")
    }

    /// The stage that this failure belongs to.
    pub fn stage(&self) -> (stage: Stage)
        ensures
            stage == Stage::Geometry,
    {
        Stage::Geometry
    }
}

/// The failure of its stage: a controller element could not be read.
#[derive(Copy, Clone, Debug)]
pub struct ControllerParseError;

impl ControllerParseError {
    /// The text that describes this failure.
    pub fn message(&self) -> (text: String)
        ensures
            text@ == "Failed to parse controller"@,
    {
        String::from_str("Failed to parse controller")
    }

    /// The stage that this failure belongs to.
    pub fn stage(&self) -> (stage: Stage)
        ensures
            stage == Stage::Controller,
    {
        Stage::Controller
    }
}

/// The failure of its stage: a visual_scene element could not be read.
#[derive(Copy, Clone, Debug)]
pub struct VisualSceneError;

impl VisualSceneError {
    /// The text that describes this failure.
    pub fn message(&self) -> (text: String)
        ensures
            text@ == "Failed to parse visual scene"@,
    {
        String::from_str("Failed to parse visual scene")
    }

    /// The stage that this failure belongs to.
    pub fn stage(&self) -> (stage: Stage)
        ensures
            stage == Stage::VisualScene,
    {
        Stage::VisualScene
    }
}

/// The failure of its stage: an element that must have children has none.
#[derive(Copy, Clone, Debug)]
pub struct MissingChildrenError;

impl MissingChildrenError {
    /// The text that describes this failure.
    pub fn message(&self) -> (text: String)
        ensures
            text@ == "Missing children"@,
    {
        String::from_str("Missing children")
    }

    /// The stage that this failure belongs to.
    pub fn stage(&self) -> (stage: Stage)
        ensures
            stage == Stage::MissingChildren,
    {
        Stage::MissingChildren
    }
}

/// The failure of its stage: a node of the scene graph could not be read.
#[derive(Copy, Clone, Debug)]
pub struct SceneNodeError;

impl SceneNodeError {
    /// The text that describes this failure.
    pub fn message(&self) -> (text: String)
        ensures
            text@ == "Failed to parse scene node"@,
    {
        String::from_str("Failed to parse scene node")
    }

    /// The stage that this failure belongs to.
    pub fn stage(&self) -> (stage: Stage)
        ensures
            stage == Stage::SceneNode,
    {
        Stage::SceneNode
    }
}

/// A mandatory attribute that an element does not have, or whose value
/// cannot be read.
#[derive(Clone, Debug)]
pub struct MissingAttributeError {
    pub attribute_name: String,
}

impl MissingAttributeError {
    /// The text that describes this failure.
    pub fn message(&self) -> (text: String)
        ensures
            text@ == "Could not find attribute with name "@ + self.attribute_name@,
    {
        String::from_str("Could not find attribute with name ").concat(self.attribute_name.as_str())
    }
}

} // verus!
