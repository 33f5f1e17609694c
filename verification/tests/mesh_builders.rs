use terrain::icosphere::{build_icosphere, IcoVertex};
use terrain::mode::{handle_menu_action, AppState, MenuAction, MenuEffect};
use terrain::rectmesh::{build_rect_mesh, ConfigError};

fn ones_grid(rows: usize, cols: usize) -> Vec<Vec<u64>> {
    let mut g: Vec<Vec<u64>> = Vec::new();
    for _ in 0..rows {
        let mut row: Vec<u64> = Vec::new();
        for _ in 0..cols {
            row.push(1_000_000);
        }
        g.push(row);
    }
    g
}

fn weights_are_barycentric(v: &IcoVertex, res: u32) -> bool {
    v.v0 < 12 && v.v1 < 12 && v.v2 < 12 && v.w0 + v.w1 + v.w2 == res
}

#[test]
fn icosphere_level_zero_is_the_bare_icosahedron() {
    // 20 faces times 3 corners: exactly 60 vertices, each one of the 12
    // base vertices (a single barycentric weight of 1).
    let m = build_icosphere(0);
    assert_eq!(m.vertices.len(), 60);
    assert_eq!(m.indices.len(), 60);
    for (i, idx) in m.indices.iter().enumerate() {
        assert_eq!(*idx as usize, i);
    }
    let mut seen = [false; 12];
    for v in &m.vertices {
        assert!(weights_are_barycentric(v, 1));
        let id = if v.w0 == 1 {
            v.v0
        } else if v.w1 == 1 {
            v.v1
        } else {
            assert_eq!(v.w2, 1);
            v.v2
        };
        seen[id as usize] = true;
    }
    // every one of the 12 base vertices is reused across faces
    assert!(seen.iter().all(|s| *s));
}

#[test]
fn icosphere_vertex_count_is_sixty_times_four_to_the_level() {
    for s in 0..4u32 {
        let m = build_icosphere(s);
        let expected = 60usize * 4usize.pow(s);
        assert_eq!(m.vertices.len(), expected);
        assert_eq!(m.indices.len(), expected);
        for (i, idx) in m.indices.iter().enumerate() {
            assert_eq!(*idx as usize, i);
        }
        let res = 2u32.pow(s);
        for v in &m.vertices {
            assert!(weights_are_barycentric(v, res));
        }
    }
}

#[test]
fn icosphere_first_face_walks_the_apex_column() {
    // Level 1 splits each face into 4 triangles; the first face hangs off
    // the north apex (base vertices 0, 1, 2). Its first triangle sits at
    // column 0, row 0, emitted right-corner first on a cap face.
    let m = build_icosphere(1);
    let v = &m.vertices[0];
    assert_eq!((v.v0, v.v1, v.v2), (0, 1, 2));
    // emitted order on a cap face: logical corner 1, then 0, then 2
    assert_eq!((v.w0, v.w1, v.w2), (1, 1, 0));
    let v = &m.vertices[1];
    assert_eq!((v.w0, v.w1, v.w2), (2, 0, 0));
    let v = &m.vertices[2];
    assert_eq!((v.w0, v.w1, v.w2), (1, 0, 1));
}

#[test]
fn rect_mesh_counts_match_the_grid() {
    // vertex count h*(v-2)+2 and triangle count 2*h*(v-2)
    let h = 4u32;
    let v = 5u32;
    let g = ones_grid(5, 4);
    let m = build_rect_mesh(h, v, &g).unwrap();
    assert_eq!(m.vertices.len(), (4 * 3 + 2) as usize);
    assert_eq!(m.indices.len(), (6 * 4 * 3) as usize);
    // triangle count: three index entries per triangle
    assert_eq!(m.indices.len() / 3, 2 * 4 * 3);
    // every index points into the vertex array
    for idx in &m.indices {
        assert!((*idx as usize) < m.vertices.len());
    }
}

#[test]
fn rect_mesh_lays_out_poles_and_rings() {
    let mut g = ones_grid(4, 3);
    g[0][0] = 2_000_000;
    g[1][2] = 1_500_000;
    g[3][0] = 3_000_000;
    let m = build_rect_mesh(3, 4, &g).unwrap();
    assert_eq!(m.vertices.len(), 8);
    // north pole from grid row 0, column 0
    assert_eq!(m.vertices[0].row, 0);
    assert_eq!(m.vertices[0].col, 0);
    assert_eq!(m.vertices[0].height, 2_000_000);
    // ring vertices walk rows 1 and 2, columns in order
    assert_eq!(m.vertices[1].row, 1);
    assert_eq!(m.vertices[1].col, 0);
    assert_eq!(m.vertices[3].row, 1);
    assert_eq!(m.vertices[3].col, 2);
    assert_eq!(m.vertices[3].height, 1_500_000);
    // south pole from the last grid row, column 0
    assert_eq!(m.vertices[7].row, 3);
    assert_eq!(m.vertices[7].col, 0);
    assert_eq!(m.vertices[7].height, 3_000_000);
    // north fan ties ring-0 vertices to the pole: first triangle is 2,1,0
    assert_eq!(&m.indices[0..3], &[2, 1, 0]);
    // last fan triangle wraps the ring: columns 2 back to 0
    assert_eq!(&m.indices[6..9], &[1, 3, 0]);
    // the band between the two rings: first quad's two triangles
    assert_eq!(&m.indices[9..15], &[5, 4, 1, 2, 5, 1]);
    // south fan against ring 1 and the south pole vertex 7
    assert_eq!(&m.indices[27..30], &[5, 7, 4]);
}

#[test]
fn rect_mesh_rejects_too_small_grids() {
    let g = ones_grid(5, 2);
    assert_eq!(build_rect_mesh(2, 5, &g).unwrap_err(), ConfigError::GridTooSmall);
    let g = ones_grid(2, 5);
    assert_eq!(build_rect_mesh(5, 2, &g).unwrap_err(), ConfigError::GridTooSmall);
    let g = ones_grid(3, 3);
    assert!(build_rect_mesh(3, 3, &g).is_ok());
}

#[test]
fn menu_transitions_follow_the_table() {
    assert_eq!(
        handle_menu_action(AppState::MainMenu, MenuAction::Play),
        (AppState::Simulate, MenuEffect::OpenSimulation)
    );
    assert_eq!(
        handle_menu_action(AppState::MainMenu, MenuAction::Quit),
        (AppState::MainMenu, MenuEffect::Exit)
    );
    assert_eq!(
        handle_menu_action(AppState::MainMenu, MenuAction::LoadFile),
        (AppState::MainMenu, MenuEffect::Stay)
    );
    assert_eq!(
        handle_menu_action(AppState::MainMenu, MenuAction::SelectFolder),
        (AppState::MainMenu, MenuEffect::Stay)
    );
    // buttons do nothing once the simulation is running
    assert_eq!(
        handle_menu_action(AppState::Simulate, MenuAction::Play),
        (AppState::Simulate, MenuEffect::Stay)
    );
    assert_eq!(
        handle_menu_action(AppState::Simulate, MenuAction::Quit),
        (AppState::Simulate, MenuEffect::Stay)
    );
}
