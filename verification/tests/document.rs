//! Whole-document extraction, validation, and error reporting.

use gltf_core::error::Entity;
use gltf_core::error::Field;
use gltf_core::error::GltfError;
use gltf_core::json::JsonValue;
use gltf_core::parse::buffer_count;
use gltf_core::parse::buffer_lens;
use gltf_core::parse::buffer_spec_at;
use gltf_core::parse::buffer_specs;
use gltf_core::parse::check_buffer_blob;
use gltf_core::parse::build_accessors;
use gltf_core::parse::build_buffer_views;
use gltf_core::parse::build_document;
use gltf_core::json::parse_json_document;
use gltf_core::types::AccessorType;
use gltf_core::types::BufferSpec;
use gltf_core::types::ComponentType;

fn key(k: &str, v: JsonValue) -> (String, JsonValue) {
    (k.to_string(), v)
}

fn buffer_obj(byte_length: u64, uri: &str) -> JsonValue {
    JsonValue::Obj(vec![
        key("byteLength", JsonValue::UInt(byte_length)),
        key("uri", JsonValue::Str(uri.to_string())),
    ])
}

fn view_obj(buffer: u64, byte_offset: u64, byte_length: u64) -> JsonValue {
    JsonValue::Obj(vec![
        key("buffer", JsonValue::UInt(buffer)),
        key("byteOffset", JsonValue::UInt(byte_offset)),
        key("byteLength", JsonValue::UInt(byte_length)),
    ])
}

fn accessor_obj(buffer_view: u64, tag: &str, code: u64, count: u64) -> JsonValue {
    JsonValue::Obj(vec![
        key("bufferView", JsonValue::UInt(buffer_view)),
        key("type", JsonValue::Str(tag.to_string())),
        key("componentType", JsonValue::UInt(code)),
        key("count", JsonValue::UInt(count)),
    ])
}

fn doc(buffers: Vec<JsonValue>, views: Vec<JsonValue>, accessors: Vec<JsonValue>) -> JsonValue {
    JsonValue::Obj(vec![
        key("buffers", JsonValue::Arr(buffers)),
        key("bufferViews", JsonValue::Arr(views)),
        key("accessors", JsonValue::Arr(accessors)),
    ])
}

#[test]
fn buffer_specs_reads_length_and_uri() {
    let d = doc(vec![buffer_obj(4, "x.bin")], vec![], vec![]);
    let specs = buffer_specs(&d).unwrap();
    assert_eq!(specs, vec![BufferSpec { byte_length: 4, uri: "x.bin".to_string() }]);
    assert_eq!(buffer_lens(&specs), vec![4]);
}

#[test]
fn buffer_missing_uri_is_reported() {
    let d = doc(
        vec![JsonValue::Obj(vec![key("byteLength", JsonValue::UInt(4))])],
        vec![],
        vec![],
    );
    assert_eq!(
        buffer_specs(&d),
        Err(GltfError::MissingField { entity: Entity::Buffer, field: Field::Uri, index: 0 })
    );
}

#[test]
fn buffer_byte_length_wrong_type_is_reported() {
    let d = doc(
        vec![JsonValue::Obj(vec![
            key("byteLength", JsonValue::Str("4".to_string())),
            key("uri", JsonValue::Str("x.bin".to_string())),
        ])],
        vec![],
        vec![],
    );
    assert_eq!(
        buffer_specs(&d),
        Err(GltfError::TypeMismatch { entity: Entity::Buffer, field: Field::ByteLength, index: 0 })
    );
}

#[test]
fn empty_uri_is_rejected_before_any_load() {
    let d = doc(vec![buffer_obj(4, "")], vec![], vec![]);
    assert_eq!(
        buffer_specs(&d),
        Err(GltfError::TypeMismatch { entity: Entity::Buffer, field: Field::Uri, index: 0 })
    );
}

#[test]
fn lower_index_mismatch_beats_later_decode_error() {
    // buffers[0]'s blob misses its declared length while buffers[1]
    // lacks `uri`; the buffers are processed one by one, so the
    // mismatch at index 0 is the error reported.
    let missing_uri = JsonValue::Obj(vec![key("byteLength", JsonValue::UInt(2))]);
    let d = doc(vec![buffer_obj(4, "a.bin"), missing_uri], vec![], vec![]);
    let r = build_document(&d, vec![vec![1, 2, 3], vec![9, 9]]);
    assert_eq!(
        r.unwrap_err(),
        GltfError::ByteLengthMismatch { index: 0, declared: 4, actual: 3 }
    );
}

#[test]
fn per_buffer_steps_mirror_the_whole_parse() {
    let d = doc(vec![buffer_obj(2, "a.bin"), buffer_obj(3, "b.bin")], vec![], vec![]);
    let n = buffer_count(&d).unwrap();
    assert_eq!(n, 2);
    let first = buffer_spec_at(&d, 0).unwrap();
    assert_eq!(first, BufferSpec { byte_length: 2, uri: "a.bin".to_string() });
    let second = buffer_spec_at(&d, 1).unwrap();
    assert_eq!(second.byte_length, 3);
    let loaded = check_buffer_blob(&first, vec![5, 6], 0).unwrap();
    assert_eq!(loaded.data, vec![5, 6]);
    let bad = check_buffer_blob(&second, vec![5, 6], 1);
    assert_eq!(
        bad.unwrap_err(),
        GltfError::ByteLengthMismatch { index: 1, declared: 3, actual: 2 }
    );
}

#[test]
fn buffer_count_reports_a_missing_section() {
    let d = JsonValue::Obj(vec![]);
    assert_eq!(
        buffer_count(&d),
        Err(GltfError::MissingField { entity: Entity::Document, field: Field::Buffers, index: 0 })
    );
}

#[test]
fn missing_buffers_section_is_reported() {
    let d = JsonValue::Obj(vec![]);
    assert_eq!(
        buffer_specs(&d),
        Err(GltfError::MissingField { entity: Entity::Document, field: Field::Buffers, index: 0 })
    );
}

#[test]
fn buffers_not_an_array_is_reported() {
    let d = JsonValue::Obj(vec![key("buffers", JsonValue::UInt(1))]);
    assert_eq!(
        buffer_specs(&d),
        Err(GltfError::TypeMismatch { entity: Entity::Document, field: Field::Buffers, index: 0 })
    );
}

#[test]
fn round_trip_preserves_buffer_bytes() {
    let d = doc(vec![buffer_obj(4, "x.bin")], vec![], vec![]);
    let parsed = build_document(&d, vec![vec![10, 20, 30, 40]]).unwrap();
    assert_eq!(parsed.buffers.len(), 1);
    assert_eq!(parsed.buffers[0].data, vec![10, 20, 30, 40]);
    assert_eq!(parsed.buffer_views.len(), 0);
    assert_eq!(parsed.accessors.len(), 0);
}

#[test]
fn short_blob_is_a_byte_length_mismatch() {
    let d = doc(vec![buffer_obj(4, "x.bin")], vec![], vec![]);
    let r = build_document(&d, vec![vec![10, 20, 30]]);
    assert_eq!(
        r.unwrap_err(),
        GltfError::ByteLengthMismatch { index: 0, declared: 4, actual: 3 }
    );
}

#[test]
fn long_blob_is_a_byte_length_mismatch() {
    let d = doc(vec![buffer_obj(4, "x.bin")], vec![], vec![]);
    let r = build_document(&d, vec![vec![10, 20, 30, 40, 50]]);
    assert_eq!(
        r.unwrap_err(),
        GltfError::ByteLengthMismatch { index: 0, declared: 4, actual: 5 }
    );
}

#[test]
fn lowest_mismatched_buffer_wins() {
    let d = doc(vec![buffer_obj(2, "a.bin"), buffer_obj(2, "b.bin")], vec![], vec![]);
    let r = build_document(&d, vec![vec![1], vec![1, 2, 3]]);
    assert_eq!(
        r.unwrap_err(),
        GltfError::ByteLengthMismatch { index: 0, declared: 2, actual: 1 }
    );
}

#[test]
fn view_buffer_index_out_of_range_is_reported() {
    let d = doc(
        vec![buffer_obj(4, "a.bin"), buffer_obj(4, "b.bin")],
        vec![view_obj(5, 0, 4)],
        vec![],
    );
    let r = build_document(&d, vec![vec![0; 4], vec![0; 4]]);
    assert_eq!(
        r.unwrap_err(),
        GltfError::IndexOutOfRange {
            entity: Entity::BufferView,
            field: Field::Buffer,
            index: 0,
            value: 5,
            bound: 2,
        }
    );
}

#[test]
fn view_past_end_of_buffer_is_reported() {
    let d = doc(vec![buffer_obj(4, "a.bin")], vec![view_obj(0, 2, 4)], vec![]);
    let r = build_document(&d, vec![vec![0; 4]]);
    assert_eq!(
        r.unwrap_err(),
        GltfError::ExtentOutOfRange { entity: Entity::BufferView, index: 0, end: 6, bound: 4 }
    );
}

#[test]
fn byte_stride_defaults_to_zero() {
    let d = doc(vec![buffer_obj(4, "a.bin")], vec![view_obj(0, 0, 4)], vec![]);
    let parsed = build_document(&d, vec![vec![0; 4]]).unwrap();
    assert_eq!(parsed.buffer_views[0].byte_stride, 0);
    assert_eq!(parsed.buffer_views[0].buffer, 0);
    assert_eq!(parsed.buffer_views[0].byte_offset, 0);
    assert_eq!(parsed.buffer_views[0].byte_length, 4);
}

#[test]
fn byte_stride_is_read_when_present() {
    let mut fields = match view_obj(0, 0, 4) {
        JsonValue::Obj(f) => f,
        _ => unreachable!(),
    };
    fields.push(key("byteStride", JsonValue::UInt(12)));
    let d = doc(vec![buffer_obj(4, "a.bin")], vec![JsonValue::Obj(fields)], vec![]);
    let parsed = build_document(&d, vec![vec![0; 4]]).unwrap();
    assert_eq!(parsed.buffer_views[0].byte_stride, 12);
}

#[test]
fn byte_stride_malformed_is_never_defaulted() {
    let mut fields = match view_obj(0, 0, 4) {
        JsonValue::Obj(f) => f,
        _ => unreachable!(),
    };
    fields.push(key("byteStride", JsonValue::Str("12".to_string())));
    let d = doc(vec![buffer_obj(4, "a.bin")], vec![JsonValue::Obj(fields)], vec![]);
    let r = build_document(&d, vec![vec![0; 4]]);
    assert_eq!(
        r.unwrap_err(),
        GltfError::TypeMismatch { entity: Entity::BufferView, field: Field::ByteStride, index: 0 }
    );
}

#[test]
fn accessor_fields_decode_with_defaults() {
    let d = doc(
        vec![buffer_obj(24, "a.bin")],
        vec![view_obj(0, 0, 24)],
        vec![accessor_obj(0, "VEC3", 5126, 2)],
    );
    let parsed = build_document(&d, vec![vec![0; 24]]).unwrap();
    let a = &parsed.accessors[0];
    assert_eq!(a.buffer_view, 0);
    assert_eq!(a.byte_offset, 0);
    assert_eq!(a.data_type, AccessorType::Vec3);
    assert_eq!(a.component_type, ComponentType::Float);
    assert_eq!(a.count, 2);
}

#[test]
fn accessor_view_index_out_of_range_is_reported() {
    let d = doc(
        vec![buffer_obj(4, "a.bin")],
        vec![view_obj(0, 0, 4)],
        vec![accessor_obj(3, "SCALAR", 5121, 1)],
    );
    let r = build_document(&d, vec![vec![0; 4]]);
    assert_eq!(
        r.unwrap_err(),
        GltfError::IndexOutOfRange {
            entity: Entity::Accessor,
            field: Field::BufferView,
            index: 0,
            value: 3,
            bound: 1,
        }
    );
}

#[test]
fn accessor_past_end_of_view_is_reported() {
    // Two float VEC3 elements need 24 bytes; the view has only 12.
    let d = doc(
        vec![buffer_obj(12, "a.bin")],
        vec![view_obj(0, 0, 12)],
        vec![accessor_obj(0, "VEC3", 5126, 2)],
    );
    let r = build_document(&d, vec![vec![0; 12]]);
    assert_eq!(
        r.unwrap_err(),
        GltfError::ExtentOutOfRange { entity: Entity::Accessor, index: 0, end: 24, bound: 12 }
    );
}

#[test]
fn accessor_filling_its_view_exactly_is_accepted() {
    // One MAT4 of unsigned bytes needs exactly 16 bytes.
    let d = doc(
        vec![buffer_obj(16, "a.bin")],
        vec![view_obj(0, 0, 16)],
        vec![accessor_obj(0, "MAT4", 5121, 1)],
    );
    assert!(build_document(&d, vec![vec![0; 16]]).is_ok());
}

#[test]
fn broken_accessor_error_names_its_position() {
    // accessors[2] lacks `count`; buffers and views are valid.
    let broken = JsonValue::Obj(vec![
        key("bufferView", JsonValue::UInt(0)),
        key("type", JsonValue::Str("SCALAR".to_string())),
        key("componentType", JsonValue::UInt(5121)),
    ]);
    let d = doc(
        vec![buffer_obj(8, "a.bin")],
        vec![view_obj(0, 0, 8)],
        vec![
            accessor_obj(0, "SCALAR", 5121, 1),
            accessor_obj(0, "SCALAR", 5121, 2),
            broken,
        ],
    );
    let r = build_document(&d, vec![vec![0; 8]]);
    assert_eq!(
        r.unwrap_err(),
        GltfError::MissingField { entity: Entity::Accessor, field: Field::Count, index: 2 }
    );
}

#[test]
fn views_decode_fully_before_index_validation() {
    // views[0] has an out-of-range buffer index, but views[1] fails to
    // decode; the whole array is decoded before indices are validated,
    // so the decode error wins.
    let incomplete = JsonValue::Obj(vec![key("buffer", JsonValue::UInt(0))]);
    let d = doc(
        vec![buffer_obj(4, "a.bin")],
        vec![view_obj(9, 0, 4), incomplete],
        vec![],
    );
    let r = build_document(&d, vec![vec![0; 4]]);
    assert_eq!(
        r.unwrap_err(),
        GltfError::MissingField {
            entity: Entity::BufferView,
            field: Field::ByteOffset,
            index: 1,
        }
    );
}

#[test]
fn non_object_buffer_element_lacks_its_fields() {
    let d = doc(vec![JsonValue::UInt(7)], vec![], vec![]);
    assert_eq!(
        buffer_specs(&d),
        Err(GltfError::MissingField { entity: Entity::Buffer, field: Field::ByteLength, index: 0 })
    );
}

#[test]
fn unknown_component_code_in_document_carries_the_code() {
    let d = doc(
        vec![buffer_obj(4, "a.bin")],
        vec![view_obj(0, 0, 4)],
        vec![accessor_obj(0, "SCALAR", 9999, 1)],
    );
    let r = build_document(&d, vec![vec![0; 4]]);
    assert_eq!(
        r.unwrap_err(),
        GltfError::UnrecognizedComponentType { value: 9999, index: 0 }
    );
}

#[test]
fn build_buffer_views_validates_against_lengths() {
    let d = doc(vec![], vec![view_obj(1, 0, 4)], vec![]);
    let lens: Vec<u64> = vec![8, 8];
    let views = build_buffer_views(&d, &lens).unwrap();
    assert_eq!(views.len(), 1);
    assert_eq!(views[0].buffer, 1);
}

#[test]
fn build_accessors_validates_against_views() {
    let d = doc(vec![], vec![], vec![accessor_obj(0, "VEC2", 5123, 2)]);
    let views = vec![gltf_core::types::BufferView {
        buffer: 0,
        byte_offset: 0,
        byte_length: 8,
        byte_stride: 0,
    }];
    let accs = build_accessors(&d, &views).unwrap();
    assert_eq!(accs.len(), 1);
    assert_eq!(accs[0].count, 2);
}

#[test]
fn json_text_parses_into_the_model() {
    let text = "{\"buffers\": [{\"byteLength\": 2, \"uri\": \"b.bin\"}]}";
    let v = parse_json_document(text).unwrap();
    let specs = buffer_specs(&v).unwrap();
    assert_eq!(specs, vec![BufferSpec { byte_length: 2, uri: "b.bin".to_string() }]);
}

#[test]
fn malformed_json_reports_a_position() {
    let r = parse_json_document("{\"buffers\": [");
    match r {
        Err(GltfError::JsonSyntax { line, .. }) => assert_eq!(line, 1),
        other => panic!("expected a syntax error, got {:?}", other),
    }
}

#[test]
fn whole_document_text_parses_end_to_end() {
    let text = "{\
        \"buffers\": [{\"byteLength\": 24, \"uri\": \"tri.bin\"}],\
        \"bufferViews\": [{\"buffer\": 0, \"byteOffset\": 0, \"byteLength\": 24}],\
        \"accessors\": [{\"bufferView\": 0, \"type\": \"VEC3\",\
                         \"componentType\": 5126, \"count\": 2}]}";
    let v = parse_json_document(text).unwrap();
    let specs = buffer_specs(&v).unwrap();
    assert_eq!(specs[0].byte_length, 24);
    let parsed = build_document(&v, vec![vec![7; 24]]).unwrap();
    assert_eq!(parsed.buffers[0].data, vec![7; 24]);
    assert_eq!(parsed.accessors[0].data_type, AccessorType::Vec3);
    assert_eq!(parsed.accessors[0].component_type, ComponentType::Float);
}
