use storm::cylinder::CylinderTopology;
use storm::geometry::{
    attribute_block, box_indices, build_plan, check_attribute_len, morph_target_block,
    skin_inverse_bind_matrices, unweld, BuildPlan, GeometryBuilderError, GeometryFlags, Indices,
    InvalidAttributeIterLenError, InverseBindMatrices, MorphTargetAttributeError,
    PrimitiveTopology, SkinBuilderError, MAX_MORPH_TARGET_COUNT,
};
use storm::sphere::{NotEnoughSegmentsError, SphereGrid};

fn flags(bits: u8) -> GeometryFlags {
    GeometryFlags { bits }
}

#[test]
fn geometry_flag_bits() {
    let mut f = GeometryFlags::empty();
    assert_eq!(f.bits(), 0);
    f.insert(GeometryFlags::POSITION | GeometryFlags::TANGENT);
    assert!(f.contains(GeometryFlags::POSITION));
    assert!(f.contains(GeometryFlags::TANGENT));
    assert!(!f.contains(GeometryFlags::NORMAL));
    f.remove(GeometryFlags::TANGENT);
    assert_eq!(f.bits(), GeometryFlags::POSITION);
}

#[test]
fn attribute_blocks() {
    assert_eq!(attribute_block(0, 5), (0, 5));
    assert_eq!(attribute_block(3, 5), (15, 20));
    assert_eq!(check_attribute_len(4, 4), Ok(()));
    assert_eq!(check_attribute_len(6, 4), Ok(()));
    assert_eq!(check_attribute_len(3, 4), Err(InvalidAttributeIterLenError { min: 4 }));
    assert_eq!(morph_target_block(0, 2), Ok(1));
    assert_eq!(morph_target_block(1, 2), Ok(2));
    assert_eq!(
        morph_target_block(2, 2),
        Err(MorphTargetAttributeError::InvalidMorphTarget { max: 2, actual: 2 })
    );
    assert_eq!(
        MorphTargetAttributeError::from_len_error(InvalidAttributeIterLenError { min: 3 }),
        MorphTargetAttributeError::InvalidAttributeIterLen(InvalidAttributeIterLenError { min: 3 })
    );
}

#[test]
fn build_plan_errors() {
    let pos = flags(GeometryFlags::POSITION);
    assert_eq!(
        build_plan(MAX_MORPH_TARGET_COUNT + 1, pos, PrimitiveTopology::TriangleList, None),
        Err(GeometryBuilderError::TooManyMorphTarget)
    );
    assert_eq!(
        build_plan(0, flags(GeometryFlags::NORMAL), PrimitiveTopology::TriangleList, None),
        Err(GeometryBuilderError::PositionsNotSet)
    );
    assert!(build_plan(MAX_MORPH_TARGET_COUNT, pos, PrimitiveTopology::TriangleList, None).is_ok());
}

#[test]
fn build_plan_generates_flat_normals() {
    let given = flags(GeometryFlags::POSITION | GeometryFlags::TANGENT | GeometryFlags::TEX_COORD_0);
    assert_eq!(
        build_plan(0, given, PrimitiveTopology::TriangleList, None),
        Ok(BuildPlan {
            generate_normals: true,
            normal_tex_coord: None,
            unweld: true,
            flags: flags(GeometryFlags::POSITION | GeometryFlags::NORMAL | GeometryFlags::TEX_COORD_0),
        })
    );
    assert_eq!(
        build_plan(0, given, PrimitiveTopology::TriangleStrip, Some(0)),
        Ok(BuildPlan {
            generate_normals: true,
            normal_tex_coord: Some(0),
            unweld: true,
            flags: flags(
                GeometryFlags::POSITION
                    | GeometryFlags::NORMAL
                    | GeometryFlags::TANGENT
                    | GeometryFlags::TEX_COORD_0
            ),
        })
    );
}

#[test]
fn build_plan_keeps_given_normals_and_tangents() {
    let welded = flags(GeometryFlags::POSITION | GeometryFlags::NORMAL);
    assert_eq!(
        build_plan(0, welded, PrimitiveTopology::TriangleList, None),
        Ok(BuildPlan { generate_normals: false, normal_tex_coord: None, unweld: false, flags: welded })
    );
    let tangents = flags(GeometryFlags::POSITION | GeometryFlags::NORMAL | GeometryFlags::TANGENT);
    assert_eq!(
        build_plan(0, tangents, PrimitiveTopology::TriangleList, Some(1)),
        Ok(BuildPlan { generate_normals: false, normal_tex_coord: None, unweld: false, flags: tangents })
    );
    assert_eq!(
        build_plan(0, welded, PrimitiveTopology::TriangleList, Some(1)),
        Ok(BuildPlan {
            generate_normals: false,
            normal_tex_coord: Some(1),
            unweld: true,
            flags: flags(GeometryFlags::POSITION | GeometryFlags::NORMAL | GeometryFlags::TANGENT),
        })
    );
}

#[test]
fn build_plan_lines_have_no_normals() {
    let pos = flags(GeometryFlags::POSITION);
    for topology in [PrimitiveTopology::PointList, PrimitiveTopology::LineList, PrimitiveTopology::LineStrip] {
        assert_eq!(
            build_plan(2, pos, topology, Some(0)),
            Ok(BuildPlan { generate_normals: false, normal_tex_coord: None, unweld: false, flags: pos })
        );
    }
}

#[test]
fn unweld_expands_each_block() {
    // Three vertices, one morph target: blocks [10, 11, 12] and [20, 21, 22].
    let attributes = vec![10, 11, 12, 20, 21, 22];
    let indices = Indices::U16(vec![2, 0, 1, 2]);
    assert_eq!(indices.len(), 4);
    assert_eq!(indices.get(0), 2);
    assert_eq!(unweld(&attributes, 3, 1, &indices), vec![12, 10, 11, 12, 22, 20, 21, 22]);
    let indices = Indices::U32(vec![1, 1]);
    assert_eq!(unweld(&attributes[..3].to_vec(), 3, 0, &indices), vec![11, 11]);
    assert!(unweld(&attributes, 3, 1, &Indices::U32(vec![])).is_empty());
}

#[test]
fn box_triangles() {
    let indices = box_indices();
    let mut faces: Vec<u16> = Vec::new();
    for face in 0..6u16 {
        let s = 4 * face;
        faces.extend_from_slice(&[s, s + 1, s + 2, s + 2, s + 3, s]);
    }
    faces.reverse();
    assert_eq!(indices, faces);
    assert_eq!(&indices[..6], &[20, 23, 22, 22, 21, 20]);
}

#[test]
fn skin_matrix_counts() {
    assert_eq!(skin_inverse_bind_matrices(3, 0), Ok(InverseBindMatrices::Identity));
    assert_eq!(skin_inverse_bind_matrices(0, 0), Ok(InverseBindMatrices::Identity));
    assert_eq!(skin_inverse_bind_matrices(3, 3), Ok(InverseBindMatrices::Given));
    assert_eq!(
        skin_inverse_bind_matrices(3, 2),
        Err(SkinBuilderError::InvalidInverseBindMatrixCount { expected: 3, actual: 2 })
    );
}

#[test]
fn sphere_segments() {
    let grid = SphereGrid::new();
    assert_eq!(grid.width_segments(), 32);
    assert_eq!(grid.height_segments(), 16);
    assert_eq!(grid.with_width_segments(2), Err(NotEnoughSegmentsError { min: 3, actual: 2 }));
    assert_eq!(grid.with_height_segments(1), Err(NotEnoughSegmentsError { min: 2, actual: 1 }));
    let g = grid.with_width_segments(3).unwrap().with_height_segments(2).unwrap();
    assert_eq!(g.width_segments(), 3);
    assert_eq!(g.height_segments(), 2);
    assert_eq!(grid.vertex_count(), 17 * 33);
    assert_eq!(g.vertex_count(), 12);
}

#[test]
fn sphere_index_counts() {
    let grid = SphereGrid::new();
    assert_eq!(grid.index_count(false, false), 15 * 32 * 6);
    assert_eq!(grid.index_count(true, false), 15 * 32 * 6 + 32 * 3);
    assert_eq!(grid.index_count(true, true), 16 * 32 * 6);
    for (top, bottom) in [(false, false), (true, false), (false, true), (true, true)] {
        assert_eq!(grid.indices(top, bottom).len(), grid.index_count(top, bottom));
        let n = grid.vertex_count() as u32;
        assert!(grid.indices(top, bottom).iter().all(|&i| i < n));
    }
}

#[test]
fn small_sphere_triangles() {
    let g = SphereGrid::new().with_width_segments(3).unwrap().with_height_segments(2).unwrap();
    assert_eq!(
        g.indices(false, false),
        vec![0, 4, 5, 1, 5, 6, 2, 6, 7, 5, 4, 9, 6, 5, 10, 7, 6, 11]
    );
    assert_eq!(
        g.indices(true, false)[..6].to_vec(),
        vec![1, 0, 5, 0, 4, 5]
    );
}

fn cylinder(radial: usize, height: usize, open: bool, top: bool, bottom: bool) -> CylinderTopology {
    CylinderTopology {
        radial_segments: radial,
        height_segments: height,
        open_ended: open,
        top_radius_positive: top,
        bottom_radius_positive: bottom,
    }
}

#[test]
fn cylinder_counts() {
    let c = cylinder(2, 1, false, true, true);
    assert_eq!(c.torso_vertex_count(), 6);
    assert_eq!(c.cap_vertex_count(), 4);
    assert_eq!(c.vertex_count(), 14);
    assert_eq!(c.torso_index_count(), 6);
    assert_eq!(c.cap_index_count(), 9);
    assert_eq!(c.index_count(), 24);
    assert_eq!(c.torso_vertex_index(1, 2), 5);
    let open = cylinder(2, 1, true, true, true);
    assert_eq!(open.vertex_count(), 6);
    assert_eq!(open.index_count(), 6);
    let cone = cylinder(2, 1, false, false, true);
    assert_eq!(cone.vertex_count(), 10);
    assert_eq!(cone.index_count(), 15);
}

#[test]
fn cylinder_triangles() {
    let c = cylinder(2, 1, false, true, true);
    assert_eq!(
        c.indices(),
        vec![
            0, 3, 1, 3, 4, 1, // torso, column 0
            1, 4, 2, 4, 5, 2, // torso, column 1
            7, 8, 6, 8, 9, 6, // top cap around 6
            12, 11, 10, 13, 12, 10, // bottom cap around 10
        ]
    );
    let cone = cylinder(2, 1, false, false, true);
    assert_eq!(cone.indices(), vec![3, 4, 1, 4, 5, 2, 8, 7, 6, 9, 8, 6]);
    let mut indices = vec![99];
    c.generate_cap_indices(&mut indices, 0, true);
    assert_eq!(indices, vec![99, 1, 2, 0, 2, 3, 0]);
    let mut indices = Vec::new();
    c.generate_torso_indices(&mut indices, 10);
    assert_eq!(indices, vec![10, 13, 11, 13, 14, 11, 11, 14, 12, 14, 15, 12]);
}

#[test]
fn cylinder_indices_in_range() {
    for (radial, height) in [(3, 1), (8, 4), (32, 1)] {
        for (open, top, bottom) in [(false, true, true), (true, true, true), (false, false, true), (false, true, false)] {
            let c = cylinder(radial, height, open, top, bottom);
            let n = c.vertex_count() as u32;
            assert!(c.indices().iter().all(|&i| i < n));
        }
    }
}

#[test]
fn sphere_segments_are_raised() {
    let g = SphereGrid::raised(1, 0);
    assert_eq!((g.width_segments(), g.height_segments()), (3, 2));
    let g = SphereGrid::raised(7, 5);
    assert_eq!((g.width_segments(), g.height_segments()), (7, 5));
    assert_eq!(SphereGrid::raised(3, 2).index_count(false, false), 18);
}
