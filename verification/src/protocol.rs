//! The rendered model as the language runtime hands it over: a list of parts,
//! each a set of points and lines and, for solids, a triangle mesh.
//!
//! Coordinates are held as the bit patterns of their `f64` values.
use vstd::prelude::*;

use crate::threemf::{ThreeMF, Triangle, Unit, Vertex, MODEL_LANG, MODEL_XMLNS, OBJECT_TYPE};
use crate::weld::{corners_below, welded_triangles, welded_vertices};

verus! {

/// Three values, one per axis.
pub type Vec3<T> = [T; 3];

/// A point; each coordinate is the bit pattern of an `f64`.
pub type Point = Vec3<u64>;

/// The triangle mesh of a solid part.
#[derive(Clone, Debug)]
pub struct Mesh {
    pub vertices: Vec<Point>,
    pub triangles: Vec<Vec3<usize>>,
    pub normals: Vec<Point>,
}

/// One output of a model.
#[derive(Clone, Debug)]
pub enum Part {
    Empty,
    Planar { points: Vec<Point>, lines: Vec<Vec<Point>> },
    Object { points: Vec<Point>, lines: Vec<Vec<Point>>, mesh: Mesh },
}

/// The parts of a rendered model and what the model printed.
#[derive(Clone, Debug)]
pub struct Render {
    pub parts: Vec<Part>,
    pub stdout: String,
}

/// A point as a 3MF vertex.
pub open spec fn point_vertex(p: Point) -> Vertex {
    Vertex { x: p@[0], y: p@[1], z: p@[2] }
}

/// Three vertex indices as a 3MF triangle.
pub open spec fn index_triangle(t: Vec3<usize>) -> Triangle {
    Triangle { v1: t@[0], v2: t@[1], v3: t@[2] }
}

impl From<Vec3<usize>> for Triangle {
    fn from(value: Vec3<usize>) -> (t: Self) {
        Triangle { v1: value[0], v2: value[1], v3: value[2] }
    }
}

impl vstd::std_specs::convert::FromSpecImpl<Vec3<usize>> for Triangle {
    open spec fn obeys_from_spec() -> bool {
        true
    }

    open spec fn from_spec(value: Vec3<usize>) -> Triangle {
        index_triangle(value)
    }
}

impl From<Point> for Vertex {
    fn from(value: Point) -> (v: Self) {
        Vertex { x: value[0], y: value[1], z: value[2] }
    }
}

impl vstd::std_specs::convert::FromSpecImpl<Point> for Vertex {
    open spec fn obeys_from_spec() -> bool {
        true
    }

    open spec fn from_spec(value: Point) -> Vertex {
        point_vertex(value)
    }
}

impl Mesh {
    /// The vertices as 3MF vertices.
    pub open spec fn vertex_seq(&self) -> Seq<Vertex> {
        self.vertices@.map_values(|p: Point| point_vertex(p))
    }

    /// The triangles as 3MF triangles.
    pub open spec fn triangle_seq(&self) -> Seq<Triangle> {
        self.triangles@.map_values(|t: Vec3<usize>| index_triangle(t))
    }

    /// Every triangle corner names a vertex of the mesh.
    pub open spec fn indices_valid(&self) -> bool {
        corners_below(self.triangle_seq(), self.vertices.len() as int)
    }
}

/// The meshes of the solid parts, in order.
pub open spec fn object_meshes(parts: Seq<Part>) -> Seq<Mesh>
    decreases parts.len(),
{
    if parts.len() == 0 {
        seq![]
    } else {
        let prev = object_meshes(parts.drop_last());
        match parts.last() {
            Part::Object { mesh, .. } => prev.push(mesh),
            _ => prev,
        }
    }
}

impl Render {
    /// Every solid part has a mesh whose triangles name its vertices.
    pub open spec fn meshes_valid(&self) -> bool {
        forall|i: int|
            0 <= i < self.parts.len() ==> match #[trigger] self.parts@[i] {
                Part::Object { mesh, .. } => mesh.indices_valid(),
                _ => true,
            }
    }
}

impl Mesh {
    /// Whether every triangle corner names a vertex of the mesh.
    pub fn check_indices(&self) -> (ok: bool)
        ensures
            ok == self.indices_valid(),
    {
        let n = self.vertices.len();
        let mut i: usize = 0;
        while i < self.triangles.len()
            invariant
                i <= self.triangles.len(),
                n == self.vertices.len(),
                corners_below(self.triangle_seq().take(i as int), n as int),
            decreases self.triangles.len() - i,
        {
            let t = self.triangles[i];
            if t[0] >= n || t[1] >= n || t[2] >= n {
                assert(self.triangle_seq()[i as int] == index_triangle(t));
                return false;
            }
            i += 1;
            assert(self.triangle_seq().take(i as int).drop_last() =~= self.triangle_seq().take(
                i - 1,
            ));
        }
        assert(self.triangle_seq().take(i as int) =~= self.triangle_seq());
        true
    }
}

impl Render {
    /// Whether every solid part has a mesh whose triangles name its
    /// vertices.
    pub fn check_meshes(&self) -> (ok: bool)
        ensures
            ok == self.meshes_valid(),
    {
        let mut i: usize = 0;
        while i < self.parts.len()
            invariant
                i <= self.parts.len(),
                forall|j: int|
                    0 <= j < i ==> match #[trigger] self.parts@[j] {
                        Part::Object { mesh, .. } => mesh.indices_valid(),
                        _ => true,
                    },
            decreases self.parts.len() - i,
        {
            match &self.parts[i] {
                Part::Object { mesh, .. } => {
                    if !mesh.check_indices() {
                        return false;
                    }
                },
                _ => {},
            }
            i += 1;
        }
        true
    }
}

fn mesh_vertices(mesh: &Mesh) -> (vs: Vec<Vertex>)
    ensures
        vs@ == mesh.vertex_seq(),
{
    let mut vs: Vec<Vertex> = Vec::new();
    let mut i: usize = 0;
    while i < mesh.vertices.len()
        invariant
            i <= mesh.vertices.len(),
            vs@ == mesh.vertices@.take(i as int).map_values(|p: Point| point_vertex(p)),
        decreases mesh.vertices.len() - i,
    {
        let p = mesh.vertices[i];
        vs.push(Vertex { x: p[0], y: p[1], z: p[2] });
        i += 1;
        assert(vs@ =~= mesh.vertices@.take(i as int).map_values(|p: Point| point_vertex(p)));
    }
    assert(mesh.vertices@.take(i as int) =~= mesh.vertices@);
    vs
}

fn mesh_triangles(mesh: &Mesh) -> (ts: Vec<Triangle>)
    ensures
        ts@ == mesh.triangle_seq(),
{
    let mut ts: Vec<Triangle> = Vec::new();
    let mut i: usize = 0;
    while i < mesh.triangles.len()
        invariant
            i <= mesh.triangles.len(),
            ts@ == mesh.triangles@.take(i as int).map_values(|t: Vec3<usize>| index_triangle(t)),
        decreases mesh.triangles.len() - i,
    {
        let t = mesh.triangles[i];
        ts.push(Triangle { v1: t[0], v2: t[1], v3: t[2] });
        i += 1;
        assert(ts@ =~= mesh.triangles@.take(i as int).map_values(
            |t: Vec3<usize>| index_triangle(t),
        ));
    }
    assert(mesh.triangles@.take(i as int) =~= mesh.triangles@);
    ts
}

impl ThreeMF {
    /// A package with one object for each solid part of the render, in
    /// order; points, lines and flat parts are left out.
    pub fn from_render(value: Render) -> (package: ThreeMF)
        requires
            value.meshes_valid(),
        ensures
            package.wf(),
            package.model.unit == Unit::Millimeter,
            package.model.lang == MODEL_LANG,
            package.model.xmlns == MODEL_XMLNS,
            package.model.resources.objects.len() == object_meshes(value.parts@).len(),
            forall|j: int|
                0 <= j < package.model.resources.objects.len()
                    ==> (#[trigger] package.model.resources.objects@[j]).object_type == OBJECT_TYPE,
            forall|j: int|
                0 <= j < package.model.resources.objects.len() ==> {
                    let mesh = #[trigger] object_meshes(value.parts@)[j];
                    let object = package.model.resources.objects@[j];
                    &&& object.mesh.vertices.vertices@ == welded_vertices(
                        mesh.vertex_seq(),
                        mesh.triangle_seq(),
                    )
                    &&& object.mesh.triangles.triangles@ == welded_triangles(
                        mesh.vertex_seq(),
                        mesh.triangle_seq(),
                    )
                },
    {
        let mut package = ThreeMF::new();
        let mut i: usize = 0;
        while i < value.parts.len()
            invariant
                i <= value.parts.len(),
                value.meshes_valid(),
                package.wf(),
                package.model.unit == Unit::Millimeter,
                package.model.lang == MODEL_LANG,
                package.model.xmlns == MODEL_XMLNS,
                package.model.resources.objects.len() == object_meshes(
                    value.parts@.take(i as int),
                ).len(),
                object_meshes(value.parts@.take(i as int)).len() <= i,
                forall|j: int|
                    0 <= j < package.model.resources.objects.len()
                        ==> (#[trigger] package.model.resources.objects@[j]).object_type
                        == OBJECT_TYPE,
                forall|j: int|
                    0 <= j < package.model.resources.objects.len() ==> {
                        let mesh = #[trigger] object_meshes(value.parts@.take(i as int))[j];
                        let object = package.model.resources.objects@[j];
                        &&& object.mesh.vertices.vertices@ == welded_vertices(
                            mesh.vertex_seq(),
                            mesh.triangle_seq(),
                        )
                        &&& object.mesh.triangles.triangles@ == welded_triangles(
                            mesh.vertex_seq(),
                            mesh.triangle_seq(),
                        )
                    },
            decreases value.parts.len() - i,
        {
            let ghost before = value.parts@.take(i as int);
            assert(value.parts@.take(i + 1).drop_last() =~= before);
            assert(value.parts@.take(i + 1).last() == value.parts@[i as int]);
            match &value.parts[i] {
                Part::Object { mesh, .. } => {
                    assert(value.parts@[i as int] matches Part::Object { .. });
                    let vertices = mesh_vertices(mesh);
                    let triangles = mesh_triangles(mesh);
                    package.add_3d_model(vertices, triangles);
                },
                _ => {},
            }
            i += 1;
        }
        assert(value.parts@.take(value.parts.len() as int) =~= value.parts@);
        package
    }
}

/// The 3MF vertices of a mesh are its points, coordinate for coordinate:
/// point `i` gives vertex `i` with its first, second and third coordinate
/// as x, y and z.
pub proof fn lemma_vertex_seq_coordinates(mesh: Mesh, i: int)
    requires
        0 <= i < mesh.vertices.len(),
    ensures
        mesh.vertex_seq().len() == mesh.vertices.len(),
        mesh.vertex_seq()[i].x == mesh.vertices@[i][0],
        mesh.vertex_seq()[i].y == mesh.vertices@[i][1],
        mesh.vertex_seq()[i].z == mesh.vertices@[i][2],
{
}

/// The 3MF triangles of a mesh are its index triples, corner for corner.
pub proof fn lemma_triangle_seq_corners(mesh: Mesh, i: int)
    requires
        0 <= i < mesh.triangles.len(),
    ensures
        mesh.triangle_seq().len() == mesh.triangles.len(),
        mesh.triangle_seq()[i].v1 == mesh.triangles@[i][0],
        mesh.triangle_seq()[i].v2 == mesh.triangles@[i][1],
        mesh.triangle_seq()[i].v3 == mesh.triangles@[i][2],
{
}

} // verus!
