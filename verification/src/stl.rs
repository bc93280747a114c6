//! The facets an STL file of a render holds.
use vstd::prelude::*;

use crate::protocol::{Mesh, Part, Point, Render, Vec3};

verus! {

/// Why a render has no STL form.
#[derive(Clone, Copy, Debug, PartialEq, Eq, Structural)]
pub enum StlError {
    /// The render has no solid as its first part.
    MissingPart(),
    /// A triangle of the mesh names a vertex the mesh does not have.
    InvalidMesh(),
}

/// One triangle of an STL file: its corners and, where the mesh gives one,
/// its normal. A facet without a normal gets the one its corners span.
#[derive(Clone, Copy, Debug)]
pub struct StlFacet {
    pub vertices: [Point; 3],
    pub normal: Option<Point>,
}

/// Every corner of every triangle names a vertex of the mesh.
pub open spec fn triangles_in_range(mesh: Mesh) -> bool {
    forall|i: int|
        0 <= i < mesh.triangles.len() ==> {
            let t = #[trigger] mesh.triangles@[i];
            &&& t@[0] < mesh.vertices.len()
            &&& t@[1] < mesh.vertices.len()
            &&& t@[2] < mesh.vertices.len()
        }
}

/// The facet of triangle `i` of a mesh.
pub open spec fn facet_of(mesh: Mesh, i: int) -> StlFacet {
    let t = mesh.triangles@[i];
    StlFacet {
        vertices: [
            mesh.vertices@[t@[0] as int],
            mesh.vertices@[t@[1] as int],
            mesh.vertices@[t@[2] as int],
        ],
        normal: if i < mesh.normals.len() {
            Some(mesh.normals@[i])
        } else {
            None
        },
    }
}

/// The mesh that the STL form of a render shows: that of its first part,
/// when that part is a solid.
pub open spec fn stl_mesh(render: Render) -> Option<Mesh> {
    if render.parts.len() == 0 {
        None
    } else {
        match render.parts@[0] {
            Part::Object { mesh, .. } => Some(mesh),
            _ => None,
        }
    }
}

impl Render {
    /// The facets of the mesh of the first part, one per triangle, in order.
    pub fn stl_facets(&self) -> (facets: Result<Vec<StlFacet>, StlError>)
        ensures
            stl_mesh(*self) is None <==> facets == Err::<Vec<StlFacet>, StlError>(
                StlError::MissingPart(),
            ),
            stl_mesh(*self) matches Some(mesh) ==> {
                &&& !triangles_in_range(mesh) <==> facets == Err::<Vec<StlFacet>, StlError>(
                    StlError::InvalidMesh(),
                )
                &&& triangles_in_range(mesh) ==> (facets matches Ok(fs) && fs@ == Seq::new(
                    mesh.triangles.len() as nat,
                    |i: int| facet_of(mesh, i),
                ))
            },
            stl_mesh(*self) matches Some(mesh) ==> (facets matches Ok(fs) ==> forall|k: int|
                0 <= k < fs.len() ==> {
                    let t = mesh.triangles@[k];
                    &&& (#[trigger] fs@[k]).normal == if k < mesh.normals.len() {
                        Some(mesh.normals@[k])
                    } else {
                        None
                    }
                    &&& fs@[k].vertices[0] == mesh.vertices@[t[0] as int]
                    &&& fs@[k].vertices[1] == mesh.vertices@[t[1] as int]
                    &&& fs@[k].vertices[2] == mesh.vertices@[t[2] as int]
                }),
    {
        if self.parts.len() == 0 {
            return Err(StlError::MissingPart());
        }
        let mesh = match &self.parts[0] {
            Part::Object { mesh, .. } => mesh,
            _ => {
                return Err(StlError::MissingPart());
            },
        };
        let mut facets: Vec<StlFacet> = Vec::new();
        let mut i: usize = 0;
        while i < mesh.triangles.len()
            invariant
                stl_mesh(*self) == Some(*mesh),
                i <= mesh.triangles.len(),
                facets@ == Seq::new(i as nat, |k: int| facet_of(*mesh, k)),
                forall|k: int|
                    0 <= k < i ==> {
                        let t = #[trigger] mesh.triangles@[k];
                        &&& t@[0] < mesh.vertices.len()
                        &&& t@[1] < mesh.vertices.len()
                        &&& t@[2] < mesh.vertices.len()
                    },
            decreases mesh.triangles.len() - i,
        {
            let t = mesh.triangles[i];
            if t[0] >= mesh.vertices.len() || t[1] >= mesh.vertices.len() || t[2]
                >= mesh.vertices.len() {
                assert(!triangles_in_range(*mesh)) by {
                    assert(mesh.triangles@[i as int] == t);
                }
                return Err(StlError::InvalidMesh());
            }
            let normal = if i < mesh.normals.len() {
                Some(mesh.normals[i])
            } else {
                None
            };
            facets.push(
                StlFacet {
                    vertices: [mesh.vertices[t[0]], mesh.vertices[t[1]], mesh.vertices[t[2]]],
                    normal,
                },
            );
            i += 1;
            assert(facets@ =~= Seq::new(i as nat, |k: int| facet_of(*mesh, k)));
        }
        Ok(facets)
    }
}

/// Facet `i` of a mesh has the corners that triangle `i` names, and the
/// mesh's normal number `i` where the mesh has one.
pub proof fn lemma_facet_takes_its_own_normal(mesh: Mesh, k: int)
    requires
        0 <= k < mesh.triangles.len(),
    ensures
        k < mesh.normals.len() ==> facet_of(mesh, k).normal == Some(mesh.normals@[k]),
        k >= mesh.normals.len() ==> facet_of(mesh, k).normal is None,
        facet_of(mesh, k).vertices[0] == mesh.vertices@[mesh.triangles@[k][0] as int],
        facet_of(mesh, k).vertices[1] == mesh.vertices@[mesh.triangles@[k][1] as int],
        facet_of(mesh, k).vertices[2] == mesh.vertices@[mesh.triangles@[k][2] as int],
{
}

} // verus!
