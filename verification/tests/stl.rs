use dslcad::protocol::{Mesh, Part, Point, Render};
use dslcad::stl::StlError;

fn point(x: f64, y: f64, z: f64) -> Point {
    [x.to_bits(), y.to_bits(), z.to_bits()]
}

fn render(mesh: Mesh) -> Render {
    Render {
        parts: vec![Part::Object {
            points: vec![],
            lines: vec![],
            mesh,
        }],
        stdout: String::new(),
    }
}

fn to_f32(p: &Point) -> [f32; 3] {
    p.map(|bits| f64::from_bits(bits) as f32)
}

#[test]
fn it_writes_a_mesh_with_vertex_indices_larger_than_the_triangle_count() {
    let mut mesh = Mesh {
        vertices: (0..4).map(|i| point(i as f64, 0.0, 0.0)).collect(),
        triangles: vec![],
        normals: vec![],
    };

    // A cube-like mesh: 12 triangles referencing vertices by index while
    // only storing one normal per triangle.
    for i in 0..12 {
        mesh.triangles.push([i % 4, (i + 1) % 4, (i + 2) % 4]);
        mesh.normals.push(point(0.0, 0.0, 1.0));
    }

    let facets = render(mesh).stl_facets().expect("failed to write stl");
    assert_eq!(12, facets.len());
    let triangles = facets.iter().map(|f| stl_io::Triangle {
        normal: stl_io::Vertex::new(to_f32(&f.normal.unwrap())),
        vertices: f.vertices.map(|v| stl_io::Vertex::new(to_f32(&v))),
    });
    let mut out = Vec::new();
    stl_io::write_stl(&mut out, triangles).expect("failed to write stl");
    assert!(!out.is_empty());
}

#[test]
fn it_errors_on_out_of_range_vertex_indices() {
    let mesh = Mesh {
        vertices: vec![point(0.0, 0.0, 0.0)],
        triangles: vec![[0, 1, 2]],
        normals: vec![point(0.0, 1.0, 0.0)],
    };

    assert!(matches!(render(mesh).stl_facets(), Err(StlError::InvalidMesh())));
}

#[test]
fn a_render_without_a_solid_first_part_has_no_stl() {
    let empty = Render { parts: vec![], stdout: String::new() };
    assert!(matches!(empty.stl_facets(), Err(StlError::MissingPart())));
    let planar = Render {
        parts: vec![Part::Planar { points: vec![], lines: vec![] }],
        stdout: String::new(),
    };
    assert!(matches!(planar.stl_facets(), Err(StlError::MissingPart())));
}

#[test]
fn facets_without_a_normal_are_left_to_the_writer() {
    let mesh = Mesh {
        vertices: vec![point(0.0, 0.0, 0.0), point(1.0, 0.0, 0.0), point(0.0, 1.0, 0.0)],
        triangles: vec![[0, 1, 2], [2, 1, 0]],
        normals: vec![point(0.0, 0.0, 1.0)],
    };
    let facets = render(mesh).stl_facets().unwrap();
    assert_eq!(Some(point(0.0, 0.0, 1.0)), facets[0].normal);
    assert_eq!(None, facets[1].normal);
    assert_eq!(
        [point(0.0, 1.0, 0.0), point(1.0, 0.0, 0.0), point(0.0, 0.0, 0.0)],
        facets[1].vertices
    );
}
