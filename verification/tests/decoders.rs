//! The enum decoders: componentType codes and type tags.

use gltf_core::error::GltfError;
use gltf_core::types::AccessorType;
use gltf_core::types::ComponentType;

#[test]
fn component_type_float_decodes_with_width_4() {
    let r = ComponentType::from_code(5126, 0);
    assert_eq!(r, Ok(ComponentType::Float));
    assert_eq!(ComponentType::Float.byte_width(), 4);
}

#[test]
fn component_type_all_codes_decode() {
    assert_eq!(ComponentType::from_code(5120, 0), Ok(ComponentType::Byte));
    assert_eq!(ComponentType::from_code(5121, 0), Ok(ComponentType::UnsignedByte));
    assert_eq!(ComponentType::from_code(5122, 0), Ok(ComponentType::Short));
    assert_eq!(ComponentType::from_code(5123, 0), Ok(ComponentType::UnsignedShort));
    assert_eq!(ComponentType::from_code(5125, 0), Ok(ComponentType::UnsignedInt));
    assert_eq!(ComponentType::from_code(5126, 0), Ok(ComponentType::Float));
}

#[test]
fn component_type_widths() {
    assert_eq!(ComponentType::Byte.byte_width(), 1);
    assert_eq!(ComponentType::UnsignedByte.byte_width(), 1);
    assert_eq!(ComponentType::Short.byte_width(), 2);
    assert_eq!(ComponentType::UnsignedShort.byte_width(), 2);
    assert_eq!(ComponentType::UnsignedInt.byte_width(), 4);
    assert_eq!(ComponentType::Float.byte_width(), 4);
}

#[test]
fn component_type_unknown_code_is_reported() {
    let r = ComponentType::from_code(9999, 3);
    assert_eq!(r, Err(GltfError::UnrecognizedComponentType { value: 9999, index: 3 }));
    // 5124 (a signed 32-bit code in other contexts) is not in the set.
    assert_eq!(
        ComponentType::from_code(5124, 0),
        Err(GltfError::UnrecognizedComponentType { value: 5124, index: 0 })
    );
}

#[test]
fn accessor_type_vec3_has_3_components() {
    let r = AccessorType::from_tag(&"VEC3".to_string(), 0);
    assert_eq!(r, Ok(AccessorType::Vec3));
    assert_eq!(AccessorType::Vec3.num_components(), 3);
}

#[test]
fn accessor_type_mat4_has_16_components() {
    let r = AccessorType::from_tag(&"MAT4".to_string(), 0);
    assert_eq!(r, Ok(AccessorType::Mat4));
    assert_eq!(AccessorType::Mat4.num_components(), 16);
}

#[test]
fn accessor_type_all_tags_decode() {
    assert_eq!(AccessorType::from_tag(&"SCALAR".to_string(), 0), Ok(AccessorType::Scalar));
    assert_eq!(AccessorType::from_tag(&"VEC2".to_string(), 0), Ok(AccessorType::Vec2));
    assert_eq!(AccessorType::from_tag(&"VEC3".to_string(), 0), Ok(AccessorType::Vec3));
    assert_eq!(AccessorType::from_tag(&"VEC4".to_string(), 0), Ok(AccessorType::Vec4));
    assert_eq!(AccessorType::from_tag(&"MAT2".to_string(), 0), Ok(AccessorType::Mat2));
    assert_eq!(AccessorType::from_tag(&"MAT3".to_string(), 0), Ok(AccessorType::Mat3));
    assert_eq!(AccessorType::from_tag(&"MAT4".to_string(), 0), Ok(AccessorType::Mat4));
}

#[test]
fn accessor_type_component_counts() {
    assert_eq!(AccessorType::Scalar.num_components(), 1);
    assert_eq!(AccessorType::Vec2.num_components(), 2);
    assert_eq!(AccessorType::Vec4.num_components(), 4);
    assert_eq!(AccessorType::Mat2.num_components(), 4);
    assert_eq!(AccessorType::Mat3.num_components(), 9);
}

#[test]
fn accessor_type_unknown_tag_is_reported() {
    let r = AccessorType::from_tag(&"QUAT".to_string(), 1);
    assert_eq!(
        r,
        Err(GltfError::UnrecognizedAccessorType { value: "QUAT".to_string(), index: 1 })
    );
    // Tags are case-sensitive.
    let r = AccessorType::from_tag(&"vec3".to_string(), 0);
    assert_eq!(
        r,
        Err(GltfError::UnrecognizedAccessorType { value: "vec3".to_string(), index: 0 })
    );
}
