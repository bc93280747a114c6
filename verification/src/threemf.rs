//! The 3MF package model: objects, their welded meshes and the build list.
//!
//! Coordinates are held as the bit patterns of their `f64` values: welding
//! compares them bit for bit (with both zeros taken as one), and the package
//! writer turns them back into numbers.
use vstd::prelude::*;

use crate::weld::{corners_below, weld_mesh, welded_triangles, welded_vertices};

verus! {

/// A vertex of a 3MF mesh; each coordinate is the bit pattern of an `f64`.
#[derive(Clone, Copy, Debug, PartialEq, Eq, Structural)]
pub struct Vertex {
    pub x: u64,
    pub y: u64,
    pub z: u64,
}

/// A triangle of a 3MF mesh, given by three indices into its vertex list.
#[derive(Clone, Copy, Debug, PartialEq, Eq, Structural)]
pub struct Triangle {
    pub v1: usize,
    pub v2: usize,
    pub v3: usize,
}

/// The unit of a model's coordinates.
#[derive(Clone, Copy, Debug, PartialEq, Eq, Structural)]
pub enum Unit {
    Millimeter,
}

/// The vertex list of an object's mesh.
pub struct Vertices {
    pub vertices: Vec<Vertex>,
}

/// The triangle list of an object's mesh.
pub struct Triangles {
    pub triangles: Vec<Triangle>,
}

/// The welded mesh of an object.
pub struct Mesh {
    pub vertices: Vertices,
    pub triangles: Triangles,
}

/// A printable object of the model.
pub struct Object {
    pub id: usize,
    pub object_type: &'static str,
    pub mesh: Mesh,
}

/// The objects of the model.
pub struct Resources {
    pub objects: Vec<Object>,
}

/// A reference from the build plate to an object.
#[derive(Clone, Copy, Debug, PartialEq, Eq, Structural)]
pub struct BuildItem {
    pub object_id: usize,
}

/// What the printer builds: one item per object.
pub struct Build {
    pub items: Vec<BuildItem>,
}

/// The 3D model part of a 3MF package.
pub struct Model {
    pub unit: Unit,
    pub lang: &'static str,
    pub xmlns: &'static str,
    pub resources: Resources,
    pub build: Build,
}

/// The language tag of every model.
pub const MODEL_LANG: &'static str = "en-US";

/// The XML namespace of the 3MF core specification.
pub const MODEL_XMLNS: &'static str = "http://schemas.microsoft.com/3dmanufacturing/core/2015/02";

/// The type of every object the library writes.
pub const OBJECT_TYPE: &'static str = "model";

impl Model {
    /// Objects are numbered from one in the order they were added, and the
    /// build lists each object once, in the same order.
    pub open spec fn wf(&self) -> bool {
        &&& self.resources.objects.len() == self.build.items.len()
        &&& forall|i: int|
            0 <= i < self.resources.objects.len() ==> (#[trigger] self.resources.objects@[i]).id
                == i + 1
        &&& forall|i: int|
            0 <= i < self.build.items.len() ==> (#[trigger] self.build.items@[i]).object_id == i
                + 1
    }

    /// A model in millimeters with no objects.
    pub fn new() -> (model: Self)
        ensures
            model.wf(),
            model.resources.objects.len() == 0,
            model.unit == Unit::Millimeter,
            model.lang == MODEL_LANG,
            model.xmlns == MODEL_XMLNS,
    {
        Model {
            unit: Unit::Millimeter,
            lang: MODEL_LANG,
            xmlns: MODEL_XMLNS,
            resources: Resources { objects: Vec::new() },
            build: Build { items: Vec::new() },
        }
    }

    /// Adds an object with the welded form of the given mesh, and a build
    /// item for it.
    pub fn add_object(&mut self, vertices: Vec<Vertex>, triangles: Vec<Triangle>)
        requires
            old(self).wf(),
            corners_below(triangles@, vertices.len() as int),
            old(self).resources.objects.len() < usize::MAX,
        ensures
            final(self).wf(),
            final(self).unit == old(self).unit,
            final(self).lang == old(self).lang,
            final(self).xmlns == old(self).xmlns,
            final(self).resources.objects.len() == old(self).resources.objects.len() + 1,
            forall|i: int|
                0 <= i < old(self).resources.objects.len()
                    ==> final(self).resources.objects@[i] == old(self).resources.objects@[i],
            ({
                let added = final(self).resources.objects@[old(self).resources.objects.len() as int];
                &&& added.object_type == OBJECT_TYPE
                &&& added.mesh.vertices.vertices@ == welded_vertices(vertices@, triangles@)
                &&& added.mesh.triangles.triangles@ == welded_triangles(vertices@, triangles@)
            }),
    {
        let ghost vs = vertices@;
        let ghost ts = triangles@;
        let (vertices, triangles) = weld_mesh(vertices, triangles);
        let id = self.resources.objects.len() + 1;
        self.resources.objects.push(
            Object {
                id,
                object_type: OBJECT_TYPE,
                mesh: Mesh {
                    vertices: Vertices { vertices },
                    triangles: Triangles { triangles },
                },
            },
        );
        self.build.items.push(BuildItem { object_id: id });
    }
}


impl Default for Model {
    fn default() -> (model: Self)
        ensures
            model.wf(),
            model.resources.objects.len() == 0,
            model.unit == Unit::Millimeter,
            model.lang == MODEL_LANG,
            model.xmlns == MODEL_XMLNS,
    {
        Model::new()
    }
}

/// A default content type of the package: the files with `extension` hold
/// `content_type`.
#[derive(Clone, Copy, Debug)]
pub struct ContentType {
    pub extension: &'static str,
    pub content_type: &'static str,
}

/// The kinds of relationship a package declares.
#[derive(Clone, Copy, Debug, PartialEq, Eq, Structural)]
pub enum RelationshipType {
    Model,
}

/// A relationship from the package to one of its parts.
#[derive(Clone, Copy, Debug)]
pub struct Relationship {
    pub target: &'static str,
    pub id: &'static str,
    pub relationship_type: RelationshipType,
}

pub const RELS_EXTENSION: &'static str = "rels";

pub const RELS_CONTENT_TYPE: &'static str = "application/vnd.openxmlformats-package.relationships+xml";

pub const MODEL_EXTENSION: &'static str = "model";

pub const MODEL_CONTENT_TYPE: &'static str = "application/vnd.ms-package.3dmanufacturing-3dmodel+xml";

/// Where the model lives inside the package.
pub const MODEL_TARGET: &'static str = "/3D/3dmodel.model";

pub const MODEL_RELATIONSHIP_ID: &'static str = "rel0";

/// A 3MF package: its content types, its relationships and its model.
pub struct ThreeMF {
    pub content_types: Vec<ContentType>,
    pub relationships: Vec<Relationship>,
    pub model: Model,
}

impl ThreeMF {
    /// The package declares the relationship and model content types and
    /// one relationship to its model, and the model is well formed.
    pub open spec fn wf(&self) -> bool {
        &&& self.content_types@ == seq![
            ContentType { extension: RELS_EXTENSION, content_type: RELS_CONTENT_TYPE },
            ContentType { extension: MODEL_EXTENSION, content_type: MODEL_CONTENT_TYPE },
        ]
        &&& self.relationships@ == seq![
            Relationship {
                target: MODEL_TARGET,
                id: MODEL_RELATIONSHIP_ID,
                relationship_type: RelationshipType::Model,
            },
        ]
        &&& self.model.wf()
    }

    /// An empty package.
    pub fn new() -> (package: Self)
        ensures
            package.wf(),
            package.model.resources.objects.len() == 0,
            package.model.unit == Unit::Millimeter,
            package.model.lang == MODEL_LANG,
            package.model.xmlns == MODEL_XMLNS,
    {
        let content_types = vec![
            ContentType { extension: RELS_EXTENSION, content_type: RELS_CONTENT_TYPE },
            ContentType { extension: MODEL_EXTENSION, content_type: MODEL_CONTENT_TYPE },
        ];
        let relationships = vec![
            Relationship {
                target: MODEL_TARGET,
                id: MODEL_RELATIONSHIP_ID,
                relationship_type: RelationshipType::Model,
            },
        ];
        assert(content_types@ =~= seq![
            ContentType { extension: RELS_EXTENSION, content_type: RELS_CONTENT_TYPE },
            ContentType { extension: MODEL_EXTENSION, content_type: MODEL_CONTENT_TYPE },
        ]);
        assert(relationships@ =~= seq![
            Relationship {
                target: MODEL_TARGET,
                id: MODEL_RELATIONSHIP_ID,
                relationship_type: RelationshipType::Model,
            },
        ]);
        ThreeMF { content_types, relationships, model: Model::new() }
    }

    /// Adds an object with the welded form of the given mesh to the model.
    pub fn add_3d_model(&mut self, vertices: Vec<Vertex>, triangles: Vec<Triangle>)
        requires
            old(self).wf(),
            corners_below(triangles@, vertices.len() as int),
            old(self).model.resources.objects.len() < usize::MAX,
        ensures
            final(self).wf(),
            final(self).model.unit == old(self).model.unit,
            final(self).model.lang == old(self).model.lang,
            final(self).model.xmlns == old(self).model.xmlns,
            final(self).model.resources.objects.len() == old(self).model.resources.objects.len()
                + 1,
            forall|i: int|
                0 <= i < old(self).model.resources.objects.len()
                    ==> final(self).model.resources.objects@[i] == old(self).model.resources.objects@[i],
            ({
                let added = final(self).model.resources.objects@[old(self).model.resources.objects.len() as int];
                &&& added.object_type == OBJECT_TYPE
                &&& added.mesh.vertices.vertices@ == welded_vertices(vertices@, triangles@)
                &&& added.mesh.triangles.triangles@ == welded_triangles(vertices@, triangles@)
            }),
    {
        self.model.add_object(vertices, triangles);
    }
}

impl Default for ThreeMF {
    fn default() -> (package: Self)
        ensures
            package.wf(),
            package.model.resources.objects.len() == 0,
            package.model.unit == Unit::Millimeter,
            package.model.lang == MODEL_LANG,
            package.model.xmlns == MODEL_XMLNS,
    {
        ThreeMF::new()
    }
}

} // verus!
