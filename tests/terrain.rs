use landmass::terrain::{Grid, TerrainError};
use noise::{NoiseFn, Perlin, Seedable};

#[test]
fn grid_rejects_non_positive_sizes() {
    assert_eq!(Grid::new(0, 4), Err(TerrainError::InvalidSize));
    assert_eq!(Grid::new(4, -1), Err(TerrainError::InvalidSize));
}

#[test]
fn grid_rejects_more_vertices_than_u16_indices_reach() {
    assert_eq!(Grid::new(257, 256), Err(TerrainError::TooManyVertices));
    assert_eq!(Grid::new(65536, 2), Err(TerrainError::TooManyVertices));
}

#[test]
fn grid_accepts_the_largest_size() {
    let g = Grid::new(256, 256).unwrap();
    assert_eq!(g.vertex_count(), 65536);
    assert_eq!(g.triangle_count(), 2 * 255 * 255);
    let idx = g.triangle_indices();
    assert_eq!(idx.len(), 6 * 255 * 255);
    assert_eq!(*idx.iter().max().unwrap(), 65535);
}

#[test]
fn counts_of_a_four_by_four_grid() {
    let g = Grid::new(4, 4).unwrap();
    assert_eq!(g.vertex_count(), 16);
    assert_eq!(g.triangle_count(), 18);
    assert_eq!(g.triangle_indices().len(), 54);
}

#[test]
fn a_single_row_has_no_triangles() {
    let g = Grid::new(5, 1).unwrap();
    assert_eq!(g.vertex_count(), 5);
    assert_eq!(g.triangle_count(), 0);
    assert!(g.triangle_indices().is_empty());
    let g = Grid::new(1, 3).unwrap();
    assert_eq!(g.triangle_count(), 0);
    assert!(g.triangle_indices().is_empty());
}

#[test]
fn index_list_of_a_three_by_two_grid() {
    let g = Grid::new(3, 2).unwrap();
    assert_eq!(g.triangle_indices(), vec![1, 4, 0, 0, 4, 3, 2, 5, 1, 1, 5, 4]);
}

#[test]
fn vertex_cells_are_row_major() {
    let g = Grid::new(3, 2).unwrap();
    assert_eq!(g.vertex_cells(), vec![(0, 0), (1, 0), (2, 0), (0, 1), (1, 1), (2, 1)]);
}

#[test]
fn last_cell_wins_the_vertex_normal() {
    let g = Grid::new(3, 3).unwrap();
    let faces: Vec<u32> = vec![10, 20, 30, 40];
    assert_eq!(g.vertex_normals(&faces, 0), vec![10, 20, 20, 30, 40, 40, 30, 40, 40]);
}

#[test]
fn grid_without_cells_keeps_zero_normals() {
    let g = Grid::new(4, 1).unwrap();
    let faces: Vec<u32> = Vec::new();
    assert_eq!(g.vertex_normals(&faces, 7), vec![7, 7, 7, 7]);
}

#[test]
fn flat_grid_faces_all_point_up() {
    let g = Grid::new(4, 3).unwrap();
    let idx = g.triangle_indices();
    let w = 4i64;
    for t in idx.chunks(3) {
        let p = |v: u16| ((v as i64) % w, (v as i64) / w);
        let (ax, az) = p(t[0]);
        let (bx, bz) = p(t[1]);
        let (cx, cz) = p(t[2]);
        let y = (az - bz) * (cx - bx) - (ax - bx) * (cz - bz);
        assert_eq!(y, 1);
    }
}

#[test]
fn same_seed_gives_identical_positions() {
    let g = Grid::new(4, 4).unwrap();
    let heights = |seed: u32| -> Vec<(f32, f32, f32)> {
        let perlin = Perlin::new().set_seed(seed);
        g.vertex_cells()
            .iter()
            .map(|&(col, row)| {
                let x = col as f32;
                let z = row as f32;
                let y = perlin.get([x as f64 / 4.0, z as f64 / 4.0]) as f32;
                (x, y * 10.0, z)
            })
            .collect()
    };
    let a = heights(1234);
    let b = heights(1234);
    assert_eq!(a.len(), 16);
    for (p, q) in a.iter().zip(b.iter()) {
        assert_eq!(p.0.to_bits(), q.0.to_bits());
        assert_eq!(p.1.to_bits(), q.1.to_bits());
        assert_eq!(p.2.to_bits(), q.2.to_bits());
    }
}
