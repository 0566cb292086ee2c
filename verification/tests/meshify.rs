use voxel_util::cube::get_shapes;
use voxel_util::meshify::{emit_shape, neighbor_of, occlusion_mask, shifted, Mesh, Meshifier};
use voxel_util::point::{Point, Size};
use voxel_util::{check_grid, MeshError};

const FACES: [[(u32, u32, u32); 6]; 6] = [
    [(1, 1, 1), (1, 0, 1), (0, 0, 1), (1, 1, 1), (0, 0, 1), (0, 1, 1)],
    [(0, 1, 0), (0, 0, 0), (1, 0, 0), (0, 1, 0), (1, 0, 0), (1, 1, 0)],
    [(1, 1, 0), (1, 1, 1), (0, 1, 1), (1, 1, 0), (0, 1, 1), (0, 1, 0)],
    [(0, 0, 0), (0, 0, 1), (1, 0, 1), (0, 0, 0), (1, 0, 1), (1, 0, 0)],
    [(1, 1, 0), (1, 0, 0), (1, 0, 1), (1, 1, 0), (1, 0, 1), (1, 1, 1)],
    [(0, 1, 1), (0, 0, 1), (0, 0, 0), (0, 1, 1), (0, 0, 0), (0, 1, 0)],
];

fn vertices_of(mesh: &Mesh) -> Vec<(u32, u32, u32)> {
    mesh.vertices().iter().map(|point| (point.x, point.y, point.z)).collect()
}

fn groups_of(mesh: &Mesh) -> Vec<(usize, usize, usize)> {
    mesh.vertex_groups()
        .iter()
        .map(|group| (group.start(), group.count(), group.material_index()))
        .collect()
}

fn faces_at(faces: &[usize], cell: (u32, u32, u32)) -> Vec<(u32, u32, u32)> {
    let mut expected = Vec::new();
    for &face in faces {
        for corner in FACES[face].iter() {
            expected.push((corner.0 + cell.0, corner.1 + cell.1, corner.2 + cell.2));
        }
    }
    expected
}

/// Meshes a grid in one pass over the cells sorted by material, closing a
/// group whenever the material changes.
fn single_pass_mesh(
    voxels: &[usize],
    palette: &[u32],
    size: (usize, usize, usize),
) -> (Vec<(u32, u32, u32)>, Vec<(usize, usize, usize)>) {
    let steps: [(i64, i64, i64); 6] =
        [(0, 0, 1), (0, 0, -1), (0, 1, 0), (0, -1, 0), (1, 0, 0), (-1, 0, 0)];
    let mut cells: Vec<(usize, usize)> = voxels.iter().copied().enumerate().collect();
    cells.sort_by_key(|cell| cell.1);
    let mut vertices = Vec::new();
    let mut groups = Vec::new();
    let mut last = (0usize, 0usize, 0usize);
    for (index, material) in cells {
        let at = (index / size.2 / size.1, index / size.2 % size.1, index % size.2);
        let alpha = palette[material] & 0xff;
        if alpha == 0 {
            continue;
        }
        if last.2 != material {
            if last.1 > 0 {
                groups.push(last);
            }
            last = (vertices.len(), 0, material);
        }
        for (face, step) in steps.iter().enumerate() {
            let beside = (at.0 as i64 + step.0, at.1 as i64 + step.1, at.2 as i64 + step.2);
            let inside = 0 <= beside.0
                && beside.0 < size.0 as i64
                && 0 <= beside.1
                && beside.1 < size.1 as i64
                && 0 <= beside.2
                && beside.2 < size.2 as i64;
            if inside {
                let other = beside.0 as usize * size.1 * size.2
                    + beside.1 as usize * size.2
                    + beside.2 as usize;
                if palette[voxels[other]] & 0xff >= alpha {
                    continue;
                }
            }
            for corner in FACES[face].iter() {
                vertices.push((
                    corner.0 + at.0 as u32,
                    corner.1 + at.1 as u32,
                    corner.2 + at.2 as u32,
                ));
            }
            last.1 += 6;
        }
    }
    if last.1 > 0 {
        groups.push(last);
    }
    (vertices, groups)
}

fn scattered_voxels(count: usize, materials: usize, seed: u32) -> Vec<usize> {
    let mut state = seed;
    let mut voxels = Vec::new();
    for _ in 0..count {
        state = state.wrapping_mul(1664525).wrapping_add(1013904223);
        voxels.push((state >> 16) as usize % materials);
    }
    voxels
}

#[test]
fn meshify_meshify() {
    let meshifier = Meshifier::new();

    let mesh = meshifier.meshify(
        &vec![0, 1, 2, 3, 4, 0, 1, 2, 3],
        &vec![0x00000000, 0x000000ff, 0x111111ff, 0x222222ff, 0x333333ff],
        &Point { x: 1, y: 3, z: 3 },
    );

    println!("{:?}", mesh);
}

#[test]
fn sample_grid_has_one_group_for_each_opaque_material() {
    let meshifier = Meshifier::new();
    let mesh = meshifier.meshify(
        &vec![0, 1, 2, 3, 4, 0, 1, 2, 3],
        &vec![0x00000000, 0x000000ff, 0x111111ff, 0x222222ff, 0x333333ff],
        &Point { x: 1, y: 3, z: 3 },
    );
    assert_eq!(mesh.vertices().len(), 168);
    assert_eq!(groups_of(&mesh), vec![(0, 48, 1), (48, 48, 2), (96, 54, 3), (150, 18, 4)]);
    let first = vertices_of(&mesh);
    assert_eq!(first[..24].to_vec(), faces_at(&[1, 3, 4, 5], (0, 0, 1)));
    assert_eq!(first[24..48].to_vec(), faces_at(&[1, 2, 4, 5], (0, 2, 0)));
    assert_eq!(first[150..].to_vec(), faces_at(&[0, 4, 5], (0, 1, 1)));
}

#[test]
fn single_opaque_voxel_shows_the_whole_cube() {
    let meshifier = Meshifier::new();
    let mesh = meshifier.meshify(&vec![1], &vec![0, 0x336699ff], &Point { x: 1, y: 1, z: 1 });
    assert_eq!(mesh.vertices().len(), 36);
    assert_eq!(vertices_of(&mesh), faces_at(&[0, 1, 2, 3, 4, 5], (0, 0, 0)));
    assert_eq!(groups_of(&mesh), vec![(0, 36, 1)]);
    assert_eq!(occlusion_mask(&vec![1], &vec![0, 0x336699ff], &Point { x: 1, y: 1, z: 1 }, 0), 0);
}

#[test]
fn single_voxel_of_material_zero_forms_a_group() {
    let meshifier = Meshifier::new();
    let mesh = meshifier.meshify(&vec![0], &vec![0x01], &Point { x: 1, y: 1, z: 1 });
    assert_eq!(mesh.vertices().len(), 36);
    assert_eq!(groups_of(&mesh), vec![(0, 36, 0)]);
}

#[test]
fn adjacent_opaque_voxels_hide_their_shared_face() {
    let meshifier = Meshifier::new();
    let voxels = vec![1, 1];
    let palette = vec![0, 0xff];
    let along_z: Size = Point { x: 1, y: 1, z: 2 };
    assert_eq!(occlusion_mask(&voxels, &palette, &along_z, 0), 0b000001);
    assert_eq!(occlusion_mask(&voxels, &palette, &along_z, 1), 0b000010);
    let mesh = meshifier.meshify(&voxels, &palette, &along_z);
    let mut expected = faces_at(&[1, 2, 3, 4, 5], (0, 0, 0));
    expected.extend(faces_at(&[0, 2, 3, 4, 5], (0, 0, 1)));
    assert_eq!(vertices_of(&mesh), expected);
    assert_eq!(groups_of(&mesh), vec![(0, 60, 1)]);

    let along_y: Size = Point { x: 1, y: 2, z: 1 };
    assert_eq!(occlusion_mask(&voxels, &palette, &along_y, 0), 0b000100);
    assert_eq!(occlusion_mask(&voxels, &palette, &along_y, 1), 0b001000);
    let mesh = meshifier.meshify(&voxels, &palette, &along_y);
    let mut expected = faces_at(&[0, 1, 3, 4, 5], (0, 0, 0));
    expected.extend(faces_at(&[0, 1, 2, 4, 5], (0, 1, 0)));
    assert_eq!(vertices_of(&mesh), expected);

    let along_x: Size = Point { x: 2, y: 1, z: 1 };
    assert_eq!(occlusion_mask(&voxels, &palette, &along_x, 0), 0b010000);
    assert_eq!(occlusion_mask(&voxels, &palette, &along_x, 1), 0b100000);
    let mesh = meshifier.meshify(&voxels, &palette, &along_x);
    let mut expected = faces_at(&[0, 1, 2, 3, 5], (0, 0, 0));
    expected.extend(faces_at(&[0, 1, 2, 3, 4], (1, 0, 0)));
    assert_eq!(vertices_of(&mesh), expected);
}

#[test]
fn enclosed_voxel_contributes_nothing() {
    let meshifier = Meshifier::new();
    let mut voxels = vec![1usize; 27];
    voxels[13] = 2;
    let palette = vec![0, 0xff, 0x80];
    let size: Size = Point { x: 3, y: 3, z: 3 };
    assert_eq!(occlusion_mask(&voxels, &palette, &size, 13), 63);
    let mesh = meshifier.meshify(&voxels, &palette, &size);
    assert_eq!(mesh.vertices().len(), (54 + 6) * 6);
    assert_eq!(groups_of(&mesh), vec![(0, 360, 1)]);

    let solid = vec![1usize; 27];
    assert_eq!(occlusion_mask(&solid, &palette, &size, 13), 63);
    let mesh = meshifier.meshify(&solid, &palette, &size);
    assert_eq!(mesh.vertices().len(), 54 * 6);
    assert_eq!(groups_of(&mesh), vec![(0, 324, 1)]);
}

#[test]
fn a_dimmer_neighbor_hides_nothing() {
    let meshifier = Meshifier::new();
    let voxels = vec![1, 2];
    let palette = vec![0, 0x80, 0xff];
    let size: Size = Point { x: 1, y: 1, z: 2 };
    assert_eq!(occlusion_mask(&voxels, &palette, &size, 0), 0b000001);
    assert_eq!(occlusion_mask(&voxels, &palette, &size, 1), 0);
    let mesh = meshifier.meshify(&voxels, &palette, &size);
    let mut expected = faces_at(&[1, 2, 3, 4, 5], (0, 0, 0));
    expected.extend(faces_at(&[0, 1, 2, 3, 4, 5], (0, 0, 1)));
    assert_eq!(vertices_of(&mesh), expected);
    assert_eq!(groups_of(&mesh), vec![(0, 30, 1), (30, 36, 2)]);
}

#[test]
fn only_the_low_byte_ranks_opacity() {
    let voxels = vec![1, 2];
    let palette = vec![0, 0xffffff01, 0x00000002];
    let size: Size = Point { x: 1, y: 1, z: 2 };
    assert_eq!(occlusion_mask(&voxels, &palette, &size, 0), 0b000001);
    assert_eq!(occlusion_mask(&voxels, &palette, &size, 1), 0);
}

#[test]
fn transparent_voxels_emit_nothing() {
    let meshifier = Meshifier::new();
    let palette = vec![0xffffff00, 0xff, 0x12345600];
    let size: Size = Point { x: 2, y: 2, z: 2 };
    let mesh = meshifier.meshify(&vec![0, 2, 0, 2, 2, 0, 2, 0], &palette, &size);
    assert_eq!(mesh.vertices().len(), 0);
    assert_eq!(mesh.vertex_groups().len(), 0);

    let mesh = meshifier.meshify(&vec![0, 2, 0, 2, 2, 0, 2, 1], &palette, &size);
    assert_eq!(vertices_of(&mesh), faces_at(&[0, 1, 2, 3, 4, 5], (1, 1, 1)));
    assert_eq!(groups_of(&mesh), vec![(0, 36, 1)]);
}

#[test]
fn a_transparent_neighbor_hides_nothing() {
    let voxels = vec![0, 1, 0];
    let palette = vec![0, 0x7f];
    let size: Size = Point { x: 1, y: 1, z: 3 };
    assert_eq!(occlusion_mask(&voxels, &palette, &size, 1), 0);
    assert_eq!(occlusion_mask(&voxels, &palette, &size, 0), 0b000001);
}

#[test]
fn vertices_are_moved_to_their_cell() {
    let meshifier = Meshifier::new();
    let size: Size = Point { x: 2, y: 3, z: 4 };
    let mut voxels = vec![0usize; 24];
    voxels[Point { x: 1, y: 2, z: 3 }.to_index(&size)] = 1;
    let mesh = meshifier.meshify(&voxels, &vec![0, 0xff], &size);
    assert_eq!(vertices_of(&mesh), faces_at(&[0, 1, 2, 3, 4, 5], (1, 2, 3)));
}

#[test]
fn an_empty_grid_gives_an_empty_mesh() {
    let meshifier = Meshifier::new();
    for size in [(0usize, 3usize, 3usize), (3, 0, 3), (3, 3, 0), (0, 0, 0)] {
        let mesh = meshifier.meshify(
            &Vec::new(),
            &vec![0, 0xff],
            &Point { x: size.0, y: size.1, z: size.2 },
        );
        assert_eq!(mesh.vertices().len(), 0);
        assert_eq!(mesh.vertex_groups().len(), 0);
    }
    let huge = meshifier.checked_meshify(
        &Vec::new(),
        &Vec::new(),
        &Point { x: 0, y: usize::MAX, z: usize::MAX },
    );
    assert!(matches!(huge, Ok(ref mesh) if mesh.vertices().is_empty()));
}

#[test]
fn groups_divide_the_vertices() {
    let meshifier = Meshifier::new();
    let palette = vec![0x00, 0xff, 0x80, 0xff, 0x00, 0x40];
    let size: Size = Point { x: 4, y: 5, z: 6 };
    let voxels = scattered_voxels(120, 6, 99);
    let mesh = meshifier.meshify(&voxels, &palette, &size);
    let groups = groups_of(&mesh);
    assert_eq!(mesh.vertices().len() % 3, 0);
    assert!(!groups.is_empty());
    assert_eq!(groups[0].0, 0);
    let mut end = 0;
    let mut total = 0;
    for (position, group) in groups.iter().enumerate() {
        assert_eq!(group.0, end);
        assert!(group.1 > 0);
        assert_eq!(group.1 % 3, 0);
        assert!(palette[group.2] & 0xff != 0);
        if position > 0 {
            assert!(groups[position - 1].2 < group.2);
        }
        end = group.0 + group.1;
        total += group.1;
    }
    assert_eq!(end, mesh.vertices().len());
    assert_eq!(total, mesh.vertices().len());
}

#[test]
fn meshes_agree_with_a_single_pass_over_the_sorted_cells() {
    let meshifier = Meshifier::new();
    let palette = vec![0x00, 0xff, 0x80, 0xff, 0x00, 0x40, 0x11223344];
    let grids = [(1u32, (4usize, 5usize, 6usize)), (2, (1, 1, 9)), (3, (7, 1, 3)), (4, (3, 3, 3))];
    for (seed, size) in grids {
        let voxels = scattered_voxels(size.0 * size.1 * size.2, 7, seed);
        let mesh =
            meshifier.meshify(&voxels, &palette, &Point { x: size.0, y: size.1, z: size.2 });
        let (vertices, groups) = single_pass_mesh(&voxels, &palette, size);
        assert_eq!(vertices_of(&mesh), vertices);
        assert_eq!(groups_of(&mesh), groups);
    }
}

#[test]
fn the_engine_holds_the_shape_table() {
    let shapes = get_shapes();
    let meshifier = Meshifier::new();
    for mask in 0..64usize {
        let held: Vec<(u8, u8, u8)> =
            meshifier.shape(mask).iter().map(|corner| (corner.x, corner.y, corner.z)).collect();
        let built: Vec<(u8, u8, u8)> =
            shapes[mask].iter().map(|corner| (corner.x, corner.y, corner.z)).collect();
        assert_eq!(held, built);
    }
}

#[test]
fn emit_shape_appends_the_moved_corners() {
    let shapes = get_shapes();
    let mut vertices = vec![Point { x: 7u32, y: 8u32, z: 9u32 }];
    emit_shape(&shapes[0b111110], &Point { x: 10, y: 20, z: 30 }, &mut vertices);
    let emitted: Vec<(u32, u32, u32)> =
        vertices.iter().map(|point| (point.x, point.y, point.z)).collect();
    let mut expected = vec![(7, 8, 9)];
    expected.extend(faces_at(&[0], (10, 20, 30)));
    assert_eq!(emitted, expected);
    emit_shape(&shapes[63], &Point { x: 1, y: 2, z: 3 }, &mut vertices);
    assert_eq!(vertices.len(), 7);
}

#[test]
fn emit_shape_reaches_the_last_coordinate() {
    let shapes = get_shapes();
    let mut vertices = Vec::new();
    let far = (u32::MAX - 1) as usize;
    emit_shape(&shapes[0b011111], &Point { x: far, y: far, z: far }, &mut vertices);
    let emitted: Vec<(u32, u32, u32)> =
        vertices.iter().map(|point| (point.x, point.y, point.z)).collect();
    assert_eq!(emitted, faces_at(&[5], (u32::MAX - 1, u32::MAX - 1, u32::MAX - 1)));
}

#[test]
fn meshing_twice_gives_the_same_mesh() {
    let meshifier = Meshifier::new();
    let palette = vec![0x00, 0xff, 0x80, 0x40];
    let size: Size = Point { x: 3, y: 4, z: 5 };
    let voxels = scattered_voxels(60, 4, 5);
    let first = meshifier.meshify(&voxels, &palette, &size);
    let second = meshifier.meshify(&voxels, &palette, &size);
    let other = Meshifier::new().meshify(&voxels, &palette, &size);
    let copied = meshifier.clone().meshify(&voxels, &palette, &size);
    assert_eq!(vertices_of(&first), vertices_of(&second));
    assert_eq!(groups_of(&first), groups_of(&second));
    assert_eq!(vertices_of(&first), vertices_of(&other));
    assert_eq!(groups_of(&first), groups_of(&copied));
    assert_eq!(format!("{:?}", first), format!("{:?}", second));
}

#[test]
fn swapping_the_axes_keeps_the_groups() {
    let meshifier = Meshifier::new();
    let palette = vec![0x00, 0xff, 0x80, 0x40];
    let size: Size = Point { x: 2, y: 3, z: 4 };
    let swapped_size: Size = Point { x: 4, y: 3, z: 2 };
    let voxels = scattered_voxels(24, 4, 11);
    let mut swapped = vec![0usize; 24];
    for cell in 0..24usize {
        let at = Point::from_index(cell, &size);
        swapped[Point { x: at.z, y: at.y, z: at.x }.to_index(&swapped_size)] = voxels[cell];
    }
    let first = meshifier.meshify(&voxels, &palette, &size);
    let second = meshifier.meshify(&swapped, &palette, &swapped_size);
    assert_eq!(groups_of(&first), groups_of(&second));
    assert_eq!(first.vertices().len(), second.vertices().len());
    assert_ne!(vertices_of(&first), vertices_of(&second));
}

#[test]
fn shifted_sees_both_ends() {
    assert_eq!(shifted(0, -1, 4), None);
    assert_eq!(shifted(0, 0, 4), Some(0));
    assert_eq!(shifted(0, 1, 4), Some(1));
    assert_eq!(shifted(3, 1, 4), None);
    assert_eq!(shifted(3, -1, 4), Some(2));
    assert_eq!(shifted(3, 0, 3), None);
    assert_eq!(shifted(usize::MAX, 1, usize::MAX), None);
    assert_eq!(shifted(usize::MAX - 1, 1, usize::MAX), None);
    assert_eq!(shifted(usize::MAX, -1, usize::MAX), Some(usize::MAX - 1));
    assert_eq!(shifted(0, i8::MIN, usize::MAX), None);
    assert_eq!(shifted(200, i8::MIN, usize::MAX), Some(72));
    assert_eq!(shifted(5, 127, 133), Some(132));
    assert_eq!(shifted(0, 0, 0), None);
}

#[test]
fn neighbors_stop_at_the_boundary() {
    let size: Size = Point { x: 2, y: 3, z: 4 };
    let corner = Point { x: 0, y: 0, z: 0 };
    let found: Vec<Option<(usize, usize, usize)>> = (0..6)
        .map(|face| neighbor_of(&corner, face, &size).map(|point| (point.x, point.y, point.z)))
        .collect();
    assert_eq!(
        found,
        vec![Some((0, 0, 1)), None, Some((0, 1, 0)), None, Some((1, 0, 0)), None]
    );
    let far = Point { x: 1, y: 2, z: 3 };
    let found: Vec<Option<(usize, usize, usize)>> = (0..6)
        .map(|face| neighbor_of(&far, face, &size).map(|point| (point.x, point.y, point.z)))
        .collect();
    assert_eq!(
        found,
        vec![None, Some((1, 2, 2)), None, Some((1, 1, 3)), None, Some((0, 2, 3))]
    );
}

#[test]
fn a_wrong_voxel_count_is_refused() {
    let size: Size = Point { x: 2, y: 2, z: 2 };
    assert_eq!(check_grid(&vec![0; 7], &vec![0xff], &size), Err(MeshError::GridSizeMismatch));
    assert_eq!(check_grid(&vec![0; 9], &vec![0xff], &size), Err(MeshError::GridSizeMismatch));
    assert_eq!(check_grid(&vec![0; 8], &vec![0xff], &size), Ok(()));
    assert_eq!(
        check_grid(&vec![0; 1], &vec![0xff], &Point { x: 0, y: 1, z: 1 }),
        Err(MeshError::GridSizeMismatch)
    );
    let widest = u32::MAX as usize;
    assert_eq!(
        check_grid(&vec![0; 8], &vec![0xff], &Point { x: widest, y: widest, z: widest }),
        Err(MeshError::GridSizeMismatch)
    );
    assert_eq!(
        check_grid(&vec![0; 8], &vec![0xff], &Point { x: widest, y: widest, z: 1 }),
        Err(MeshError::GridSizeMismatch)
    );
    assert_eq!(
        check_grid(&vec![5; 7], &vec![0xff], &size),
        Err(MeshError::GridSizeMismatch)
    );
}

#[test]
fn an_extent_past_32_bits_is_refused() {
    let wide = match usize::try_from(u64::from(u32::MAX) + 1) {
        Ok(wide) => wide,
        Err(_) => return,
    };
    let meshifier = Meshifier::new();
    for size in [(wide, 1usize, 1usize), (1, wide, 1), (1, 1, wide), (wide, wide, wide)] {
        let size: Size = Point { x: size.0, y: size.1, z: size.2 };
        assert_eq!(check_grid(&vec![0], &vec![0xff], &size), Err(MeshError::CoordinateOverflow));
        assert_eq!(
            check_grid(&vec![7], &Vec::new(), &size),
            Err(MeshError::CoordinateOverflow)
        );
        let refused = meshifier.checked_meshify(&vec![0], &vec![0xff], &size);
        assert!(matches!(refused, Err(MeshError::CoordinateOverflow)));
    }
    let flat: Size = Point { x: wide, y: 0, z: wide };
    assert_eq!(check_grid(&Vec::new(), &vec![0xff], &flat), Ok(()));
    assert_eq!(check_grid(&vec![0], &vec![0xff], &flat), Err(MeshError::GridSizeMismatch));
    let last: Size = Point { x: wide - 1, y: 1, z: 1 };
    assert_eq!(check_grid(&vec![0], &vec![0xff], &last), Err(MeshError::GridSizeMismatch));
}

#[test]
fn a_material_outside_the_palette_is_refused() {
    let size: Size = Point { x: 1, y: 1, z: 3 };
    assert_eq!(
        check_grid(&vec![0, 1, 2], &vec![0xff, 0xff], &size),
        Err(MeshError::MaterialOutOfRange)
    );
    assert_eq!(check_grid(&vec![0, 1, 1], &vec![0xff, 0xff], &size), Ok(()));
    assert_eq!(
        check_grid(&vec![0, 0, 0], &Vec::new(), &size),
        Err(MeshError::MaterialOutOfRange)
    );
    let meshifier = Meshifier::new();
    let refused = meshifier.checked_meshify(&vec![0, 1, 2], &vec![0xff, 0xff], &size);
    assert!(matches!(refused, Err(MeshError::MaterialOutOfRange)));
}

#[test]
fn checked_meshify_meshes_what_fits() {
    let meshifier = Meshifier::new();
    let voxels = vec![1, 1];
    let palette = vec![0, 0xff];
    let size: Size = Point { x: 1, y: 1, z: 2 };
    let checked = meshifier.checked_meshify(&voxels, &palette, &size);
    let plain = meshifier.meshify(&voxels, &palette, &size);
    match checked {
        Ok(mesh) => {
            assert_eq!(vertices_of(&mesh), vertices_of(&plain));
            assert_eq!(groups_of(&mesh), groups_of(&plain));
        }
        Err(error) => panic!("refused: {:?}", error),
    }
    let refused = meshifier.checked_meshify(&voxels, &palette, &Point { x: 1, y: 2, z: 2 });
    assert!(matches!(refused, Err(MeshError::GridSizeMismatch)));
}

#[test]
fn the_crate_function_takes_the_extents_in_axis_order() {
    let voxels = vec![1, 0, 0, 0, 0, 2];
    let palette = vec![0, 0xff, 0xff];
    let result = voxel_util::meshify(voxels.clone(), palette.clone(), 1, 2, 3);
    match result {
        Ok(mesh) => {
            let mut expected = faces_at(&[0, 1, 2, 3, 4, 5], (0, 0, 0));
            expected.extend(faces_at(&[0, 1, 2, 3, 4, 5], (0, 1, 2)));
            assert_eq!(vertices_of(&mesh), expected);
            assert_eq!(groups_of(&mesh), vec![(0, 36, 1), (36, 36, 2)]);
        }
        Err(error) => panic!("refused: {:?}", error),
    }
    let result = voxel_util::meshify(voxels.clone(), palette.clone(), 3, 2, 1);
    match result {
        Ok(mesh) => {
            let mut expected = faces_at(&[0, 1, 2, 3, 4, 5], (0, 0, 0));
            expected.extend(faces_at(&[0, 1, 2, 3, 4, 5], (2, 1, 0)));
            assert_eq!(vertices_of(&mesh), expected);
        }
        Err(error) => panic!("refused: {:?}", error),
    }
    assert!(matches!(
        voxel_util::meshify(voxels, palette, 1, 2, 2),
        Err(MeshError::GridSizeMismatch)
    ));
}
