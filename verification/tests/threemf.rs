use dslcad::protocol::{Mesh, Part, Render};
use dslcad::threemf::{Model, ThreeMF, Triangle, Vertex};
use dslcad::weld::{canonical, weld_mesh, NEGATIVE_ZERO_BITS};
use std::collections::HashMap;

fn vertex(x: f64, y: f64, z: f64) -> Vertex {
    Vertex { x: x.to_bits(), y: y.to_bits(), z: z.to_bits() }
}

fn triangle(v1: usize, v2: usize, v3: usize) -> Triangle {
    Triangle { v1, v2, v3 }
}

fn edge_multiplicities(model: &Model) -> HashMap<(usize, usize), usize> {
    let mut edges = HashMap::new();
    for triangle in &model.resources.objects[0].mesh.triangles.triangles {
        for edge in [
            (triangle.v1, triangle.v2),
            (triangle.v2, triangle.v3),
            (triangle.v3, triangle.v1),
        ] {
            let edge = if edge.0 < edge.1 { edge } else { (edge.1, edge.0) };
            *edges.entry(edge).or_insert(0) += 1;
        }
    }
    edges
}

#[test]
fn it_welds_duplicate_vertices() {
    let mut model = Model::default();
    model.add_object(
        vec![
            vertex(0.0, 0.0, 0.0),
            vertex(0.0, 1.0, 0.0),
            vertex(1.0, 0.0, 0.0),
            vertex(0.0, 0.0, 0.0),
            vertex(1.0, 0.0, 0.0),
            vertex(1.0, 1.0, 0.0),
        ],
        vec![triangle(0, 1, 2), triangle(3, 4, 5)],
    );

    assert_eq!(4, model.resources.objects[0].mesh.vertices.vertices.len());

    let edges = edge_multiplicities(&model);
    assert_eq!(5, edges.len());
    assert_eq!(2, edges[&(0, 2)]);
}

#[test]
fn it_removes_degenerate_and_duplicate_triangles() {
    let mut model = Model::default();
    model.add_object(
        vec![
            vertex(0.0, 0.0, 0.0),
            vertex(1.0, 0.0, 0.0),
            vertex(0.0, 1.0, 0.0),
            vertex(9.0, 9.0, 9.0),
        ],
        vec![
            triangle(0, 1, 2),
            triangle(0, 1, 2),
            triangle(0, 1, 1),
            triangle(3, 3, 3),
        ],
    );

    assert_eq!(1, model.resources.objects[0].mesh.triangles.triangles.len());
    assert_eq!(3, model.resources.objects[0].mesh.vertices.vertices.len());
}

#[test]
fn negative_zero_welds_with_positive_zero() {
    assert_eq!(0, canonical((-0.0f64).to_bits()));
    assert_eq!(NEGATIVE_ZERO_BITS, (-0.0f64).to_bits());
    assert_eq!(1.5f64.to_bits(), canonical(1.5f64.to_bits()));
    let (vs, ts) = weld_mesh(
        vec![
            vertex(-0.0, 0.0, 0.0),
            vertex(1.0, 0.0, 0.0),
            vertex(0.0, 1.0, 0.0),
            vertex(0.0, 0.0, 0.0),
        ],
        vec![triangle(0, 1, 2), triangle(3, 2, 1)],
    );
    // The second triangle is the first one turned around: it is dropped.
    assert_eq!(3, vs.len());
    assert_eq!(vec![triangle(0, 1, 2)], ts);
    // The first vertex of a position is kept, bits and all.
    assert_eq!((-0.0f64).to_bits(), vs[0].x);
}

#[test]
fn welding_keeps_first_occurrence_order_and_orientation() {
    let (vs, ts) = weld_mesh(
        vec![
            vertex(5.0, 5.0, 5.0),
            vertex(0.0, 0.0, 0.0),
            vertex(1.0, 0.0, 0.0),
            vertex(0.0, 1.0, 0.0),
            vertex(1.0, 0.0, 0.0),
        ],
        vec![triangle(3, 4, 1)],
    );
    // The unused first vertex goes, the others keep their order.
    assert_eq!(
        vec![vertex(0.0, 0.0, 0.0), vertex(1.0, 0.0, 0.0), vertex(0.0, 1.0, 0.0)],
        vs
    );
    assert_eq!(vec![triangle(2, 1, 0)], ts);
}

#[test]
fn welding_a_welded_mesh_changes_nothing() {
    let (vs, ts) = weld_mesh(
        vec![
            vertex(0.0, 0.0, 0.0),
            vertex(1.0, 0.0, 0.0),
            vertex(0.0, 1.0, 0.0),
            vertex(1.0, 0.0, 0.0),
            vertex(1.0, 1.0, 0.0),
        ],
        vec![triangle(0, 1, 2), triangle(3, 4, 2), triangle(2, 1, 0)],
    );
    let (vs2, ts2) = weld_mesh(vs.clone(), ts.clone());
    assert_eq!(vs, vs2);
    assert_eq!(ts, ts2);
}

#[test]
fn objects_are_numbered_from_one_with_a_build_item_each() {
    let mut package = ThreeMF::default();
    assert_eq!(2, package.content_types.len());
    assert_eq!("rels", package.content_types[0].extension);
    assert_eq!("model", package.content_types[1].extension);
    assert_eq!(1, package.relationships.len());
    assert_eq!("/3D/3dmodel.model", package.relationships[0].target);
    for _ in 0..3 {
        package.add_3d_model(
            vec![vertex(0.0, 0.0, 0.0), vertex(1.0, 0.0, 0.0), vertex(0.0, 1.0, 0.0)],
            vec![triangle(0, 1, 2)],
        );
    }
    let ids: Vec<usize> = package.model.resources.objects.iter().map(|o| o.id).collect();
    assert_eq!(vec![1, 2, 3], ids);
    let items: Vec<usize> = package.model.build.items.iter().map(|i| i.object_id).collect();
    assert_eq!(vec![1, 2, 3], items);
    assert_eq!("model", package.model.resources.objects[0].object_type);
    assert_eq!("en-US", package.model.lang);
}

fn point(x: f64, y: f64, z: f64) -> [u64; 3] {
    [x.to_bits(), y.to_bits(), z.to_bits()]
}

#[test]
fn a_package_has_one_object_per_solid_part() {
    let mesh = Mesh {
        vertices: vec![point(0.0, 0.0, 0.0), point(1.0, 0.0, 0.0), point(0.0, 1.0, 0.0)],
        triangles: vec![[0, 1, 2]],
        normals: vec![],
    };
    let render = Render {
        parts: vec![
            Part::Empty,
            Part::Object { points: vec![], lines: vec![], mesh: mesh.clone() },
            Part::Planar { points: vec![point(1.0, 1.0, 1.0)], lines: vec![] },
            Part::Object { points: vec![], lines: vec![], mesh },
        ],
        stdout: String::new(),
    };
    let package = ThreeMF::from_render(render);
    assert_eq!(2, package.model.resources.objects.len());
    assert_eq!(3, package.model.resources.objects[1].mesh.vertices.vertices.len());
    assert_eq!(vec![triangle(0, 1, 2)], package.model.resources.objects[1].mesh.triangles.triangles);
}

#[test]
fn conversions_keep_every_coordinate_and_index() {
    let t: Triangle = [4usize, 7, 9].into();
    assert_eq!(triangle(4, 7, 9), t);
    let v: Vertex = point(1.0, 2.0, 3.0).into();
    assert_eq!(vertex(1.0, 2.0, 3.0), v);
}

#[test]
fn welding_a_large_grid_shares_every_inner_vertex() {
    // A grid of n x n squares, each given with its own four corners.
    let n = 120usize;
    let mut vs = Vec::new();
    let mut ts = Vec::new();
    for i in 0..n {
        for j in 0..n {
            let base = vs.len();
            for (di, dj) in [(0, 0), (1, 0), (1, 1), (0, 1)] {
                vs.push(vertex((i + di) as f64, (j + dj) as f64, 0.0));
            }
            ts.push(triangle(base, base + 1, base + 2));
            ts.push(triangle(base, base + 2, base + 3));
        }
    }
    let (welded_vs, welded_ts) = weld_mesh(vs, ts);
    assert_eq!((n + 1) * (n + 1), welded_vs.len());
    assert_eq!(2 * n * n, welded_ts.len());
}

#[test]
fn mesh_index_check_finds_out_of_range_corners() {
    let good = Mesh {
        vertices: vec![point(0.0, 0.0, 0.0), point(1.0, 0.0, 0.0), point(0.0, 1.0, 0.0)],
        triangles: vec![[0, 1, 2]],
        normals: vec![],
    };
    let bad = Mesh {
        vertices: good.vertices.clone(),
        triangles: vec![[0, 1, 2], [0, 3, 1]],
        normals: vec![],
    };
    assert!(good.check_indices());
    assert!(!bad.check_indices());

    let render = |mesh: Mesh| Render {
        parts: vec![
            Part::Empty,
            Part::Object {
                points: vec![],
                lines: vec![],
                mesh,
            },
        ],
        stdout: String::new(),
    };
    assert!(render(good).check_meshes());
    assert!(!render(bad).check_meshes());
}
