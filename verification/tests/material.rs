use storm::animation::Interpolation;
use storm::gltf::buffer::Buffer;
use storm::material::{
    check_primitives, pipeline_choice, AlphaMode, MaterialLayout, MeshBuilderError,
    PipelineChoice, PrimitiveSummary, Textures,
};
use storm::resource::{Asset, AssetManager, Res};
use storm::Id;

#[test]
fn alpha_mode_codes() {
    assert_eq!(AlphaMode::Opaque.code(), 0);
    assert_eq!(AlphaMode::Mask.code(), 1);
    assert_eq!(AlphaMode::Blend.code(), 2);
    assert!(AlphaMode::Opaque < AlphaMode::Blend);
}

#[test]
fn texture_bits() {
    let mut t = Textures::empty();
    assert!(!t.contains(Textures::NORMAL));
    t.insert(Textures::NORMAL);
    t.insert(Textures::EMISSIVE);
    assert!(t.contains(Textures::NORMAL));
    assert!(t.contains(Textures::EMISSIVE));
    assert!(!t.contains(Textures::BASE_COLOR));
    assert_eq!(t.bits, Textures::NORMAL | Textures::EMISSIVE);
}

#[test]
fn material_layout() {
    let mut layout = MaterialLayout::new();
    assert!(!layout.has_base_color_texture());
    assert!(!layout.has_normal_texture());
    assert_eq!(layout.alpha_mode(), AlphaMode::Opaque);
    assert!(!layout.double_sided());
    layout.textures.insert(Textures::BASE_COLOR);
    layout.textures.insert(Textures::OCCLUSION);
    layout.alpha_mode = AlphaMode::Mask;
    layout.double_sided = true;
    assert!(layout.has_base_color_texture());
    assert!(layout.has_occlusion_texture());
    assert!(!layout.has_metallic_roughness_texture());
    assert!(!layout.has_emissive_texture());
    assert_eq!(layout.alpha_mode(), AlphaMode::Mask);
    assert!(layout.double_sided());
}

#[test]
fn pipeline_choices() {
    assert_eq!(
        pipeline_choice(AlphaMode::Opaque, false),
        PipelineChoice { cull_back_faces: true, depth_write: true, blended: false }
    );
    assert_eq!(
        pipeline_choice(AlphaMode::Mask, true),
        PipelineChoice { cull_back_faces: false, depth_write: true, blended: false }
    );
    assert_eq!(
        pipeline_choice(AlphaMode::Blend, false),
        PipelineChoice { cull_back_faces: true, depth_write: false, blended: true }
    );
}

fn primitive(morph_target_count: usize, has_tangent: bool, has_normal_texture: bool) -> PrimitiveSummary {
    PrimitiveSummary { morph_target_count, has_tangent, has_normal_texture }
}

#[test]
fn mesh_primitive_checks() {
    assert_eq!(check_primitives(&[]), Err(MeshBuilderError::NoPrimitive));
    assert_eq!(check_primitives(&[primitive(2, false, false), primitive(2, true, true)]), Ok(2));
    assert_eq!(
        check_primitives(&[primitive(2, false, false), primitive(1, false, false)]),
        Err(MeshBuilderError::InvalidMorphTargetCount)
    );
    assert_eq!(
        check_primitives(&[primitive(0, false, true), primitive(1, false, false)]),
        Err(MeshBuilderError::NormalTextureWithoutTangent)
    );
    assert_eq!(
        check_primitives(&[primitive(0, true, true), primitive(1, false, true)]),
        Err(MeshBuilderError::InvalidMorphTargetCount)
    );
    assert_eq!(MeshBuilderError::NoPrimitive.message(), "cannot create a mesh with no primitive");
}

#[test]
fn resource_handles() {
    let r: Res<Vec<u8>> = Res::new(Id::new(3, 1), "bytes".to_string(), vec![1, 2]);
    assert_eq!(r.id(), Id::new(3, 1));
    assert_eq!(r.name(), "bytes");
    assert_eq!(r.value(), &vec![1, 2]);
}

fn asset() -> Asset {
    Asset {
        buffers: vec![Buffer { bytes: vec![0; 4], uri: None, byte_length: 4, name: None }],
        buffer_views: Vec::new(),
        accessors: Vec::new(),
    }
}

#[test]
fn asset_manager_hands_out_fresh_handles() {
    let mut manager = AssetManager::new();
    let a = manager.add("a.glb".to_string(), asset());
    let b = manager.add("b.glb".to_string(), asset());
    assert!(a != b);
    assert_eq!((a.sparse, a.version), (0, 0));
    assert_eq!((b.sparse, b.version), (1, 0));
}

#[test]
fn id_display() {
    let id: Id<u8> = Id::new(12, 0);
    assert_eq!(id.display_string(), "(12, 0)");
    assert_eq!(Id::<u8>::new(0, 65535).display_string(), "(0, 65535)");
}

#[test]
fn interpolation_kinds() {
    assert_ne!(Interpolation::Step, Interpolation::Linear);
    assert_eq!(Interpolation::CubicSpline, Interpolation::CubicSpline);
}
