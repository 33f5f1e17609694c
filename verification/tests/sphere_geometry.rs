//! Floating-point realization checks: the integer barycentric data the
//! library emits places every icosphere vertex on the circumscribed sphere
//! once combined and projected the way a renderer would.

use terrain::field::{Cell, Dirs};
use terrain::icosphere::build_icosphere;
use terrain::rectmesh::scale_grid;

fn base_vertices() -> [[f32; 3]; 12] {
    let p = (1.0 + 5.0f32.sqrt()) / 2.0;
    let d = (1.0 + p * p).sqrt();
    let y = 0.85065f32;
    [
        [0.0, d, 0.0],
        [0.0, y, -1.7013],
        [p, y, -(d * d - p * p - y * y).sqrt()],
        [1.0, y, (d * d - 1.0 - y * y).sqrt()],
        [-1.0, y, (d * d - 1.0 - y * y).sqrt()],
        [-p, y, -(d * d - p * p - y * y).sqrt()],
        [-1.0, -y, -(d * d - 1.0 - y * y).sqrt()],
        [1.0, -y, -(d * d - 1.0 - y * y).sqrt()],
        [p, -y, (d * d - p * p - y * y).sqrt()],
        [0.0, -y, 1.7013],
        [-p, -y, (d * d - p * p - y * y).sqrt()],
        [0.0, -d, 0.0],
    ]
}

#[test]
fn icosphere_vertices_project_onto_the_circumscribed_sphere() {
    // Combine each vertex's integer weights into a point and project it to
    // length d = sqrt(1 + phi^2): every vertex lands on the sphere within
    // floating tolerance, and the pre-projection point is never degenerate.
    let base = base_vertices();
    let p = (1.0 + 5.0f32.sqrt()) / 2.0;
    let d = (1.0 + p * p).sqrt();
    for s in 0..3u32 {
        let res = 2u32.pow(s) as f32;
        let m = build_icosphere(s);
        for v in &m.vertices {
            let a = base[v.v0 as usize];
            let b = base[v.v1 as usize];
            let c = base[v.v2 as usize];
            let mut pt = [0.0f32; 3];
            for axis in 0..3 {
                pt[axis] = (v.w0 as f32 * a[axis] + v.w1 as f32 * b[axis]
                    + v.w2 as f32 * c[axis]) / res;
            }
            let len = (pt[0] * pt[0] + pt[1] * pt[1] + pt[2] * pt[2]).sqrt();
            assert!(len > 0.5, "degenerate barycentric point");
            let projected = [pt[0] * d / len, pt[1] * d / len, pt[2] * d / len];
            let r = (projected[0] * projected[0] + projected[1] * projected[1]
                + projected[2] * projected[2])
                .sqrt();
            assert!((r - d).abs() < 1e-4);
        }
    }
}

#[test]
fn scale_grid_multiplies_every_height() {
    let mut g: Vec<Vec<u64>> = vec![
        vec![1_000_000, 2_000_000, 500_000],
        vec![0, 300_000, 4_000_000],
    ];
    // grow by ten percent: 1.1 in fixed point
    scale_grid(&mut g, 1_100_000);
    assert_eq!(g[0], vec![1_100_000, 2_200_000, 550_000]);
    assert_eq!(g[1], vec![0, 330_000, 4_400_000]);
}

#[test]
fn cell_totals_sum_their_parts() {
    let c = Cell {
        bedrock: 1_000_000,
        bed_sediment: 250_000,
        suspended_sediment: 400_000,
        water: 100_000,
        outflow: Dirs { n: 10, e: 20, s: 30, w: 40 },
        flow_speed: Dirs { n: 0, e: 0, s: 0, w: 0 },
    };
    // suspended sediment travels with the water: not part of the column
    assert_eq!(c.total_height(), 1_350_000);
    assert_eq!(c.total_outflow(), 100);
    let saturated = Cell { bedrock: u64::MAX, bed_sediment: u64::MAX, ..c };
    assert_eq!(saturated.total_height(), u64::MAX);
}
