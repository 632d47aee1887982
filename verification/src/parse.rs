//! Extraction and validation of the three document sections.
//!
//! Every executable function here returns exactly what its spec-level
//! counterpart says, so the laws in [`crate::laws`] about the spec
//! functions hold of the executable parser as well.
//!
//! Error precedence is fixed: within one array the lowest index wins, and
//! within one entity the fields are read in a fixed order; `buffers` is
//! processed before `bufferViews`, and `bufferViews` before `accessors`.

use vstd::prelude::*;

use crate::error::Entity;
use crate::error::Field;
use crate::error::GltfError;
use crate::json::spec_get;
use crate::json::get;
use crate::json::JsonValue;
use crate::types::spec_accessor_type_from_tag;
use crate::types::spec_byte_width;
use crate::types::spec_component_type_from_code;
use crate::types::spec_num_components;
use crate::types::buffers_bytes;
use crate::types::Accessor;
use crate::types::AccessorType;
use crate::types::Buffer;
use crate::types::BufferSpec;
use crate::types::BufferView;
use crate::types::ComponentType;
use crate::types::ParsedGLTF;
use crate::types::ParsedView;

verus! {

// ------------------------------------------------------------------
// Generic folds: decoding an array element by element, and finding the
// first validation error. Both stop at the lowest failing index.
// ------------------------------------------------------------------

/// Decodes positions `0 .. n` with `f`, collecting the results in order;
/// the error at the lowest failing position wins.
pub open spec fn decode_fold<A>(f: spec_fn(int) -> Result<A, GltfError>, n: int) -> Result<
    Seq<A>,
    GltfError,
>
    decreases n,
{
    if n <= 0 {
        Ok(Seq::empty())
    } else {
        match decode_fold(f, n - 1) {
            Err(e) => Err(e),
            Ok(pre) => match f(n - 1) {
                Err(e) => Err(e),
                Ok(a) => Ok(pre.push(a)),
            },
        }
    }
}

/// The validation error at the lowest position in `0 .. n` where `f`
/// reports one, if any.
pub open spec fn first_error(f: spec_fn(int) -> Option<GltfError>, n: int) -> Option<GltfError>
    decreases n,
{
    if n <= 0 {
        None
    } else {
        match first_error(f, n - 1) {
            Some(e) => Some(e),
            None => f(n - 1),
        }
    }
}

/// Once some prefix fails to decode, every longer prefix fails with the
/// same error.
pub proof fn lemma_decode_fold_err_stable<A>(
    f: spec_fn(int) -> Result<A, GltfError>,
    n: int,
    m: int,
)
    requires
        0 <= n <= m,
        decode_fold(f, n) is Err,
    ensures
        decode_fold(f, m) == decode_fold(f, n),
    decreases m,
{
    if m > n {
        lemma_decode_fold_err_stable(f, n, m - 1);
    }
}

/// A successful decode of `0 .. n` yields one result per position, each
/// the one `f` gives at that position.
pub proof fn lemma_decode_fold_ok<A>(f: spec_fn(int) -> Result<A, GltfError>, n: int)
    requires
        0 <= n,
        decode_fold(f, n) is Ok,
    ensures
        decode_fold(f, n)->Ok_0.len() == n,
        forall|i: int| 0 <= i < n ==> #[trigger] f(i) == Ok::<A, GltfError>(
            decode_fold(f, n)->Ok_0[i],
        ),
    decreases n,
{
    if n > 0 {
        lemma_decode_fold_ok(f, n - 1);
    }
}

/// When every position decodes, the whole prefix decodes.
pub proof fn lemma_decode_fold_all_ok<A>(f: spec_fn(int) -> Result<A, GltfError>, n: int)
    requires
        0 <= n,
        forall|i: int| 0 <= i < n ==> (#[trigger] f(i)) is Ok,
    ensures
        decode_fold(f, n) is Ok,
    decreases n,
{
    if n > 0 {
        lemma_decode_fold_all_ok(f, n - 1);
    }
}

/// When every position below `j` decodes and position `j` fails, the
/// whole decode fails with exactly the error of position `j`.
pub proof fn lemma_decode_fold_first_err<A>(
    f: spec_fn(int) -> Result<A, GltfError>,
    j: int,
    n: int,
)
    requires
        0 <= j < n,
        forall|i: int| 0 <= i < j ==> (#[trigger] f(i)) is Ok,
        f(j) is Err,
    ensures
        decode_fold(f, n) == Err::<Seq<A>, GltfError>(f(j)->Err_0),
{
    lemma_decode_fold_all_ok(f, j);
    assert(decode_fold(f, j + 1) is Err);
    lemma_decode_fold_err_stable(f, j + 1, n);
}

/// Validation of `0 .. n` passes exactly when every position passes.
pub proof fn lemma_first_error_none_iff(f: spec_fn(int) -> Option<GltfError>, n: int)
    requires
        0 <= n,
    ensures
        (first_error(f, n) is None) <==> (forall|i: int| 0 <= i < n ==> (#[trigger] f(i)) is None),
    decreases n,
{
    if n > 0 {
        lemma_first_error_none_iff(f, n - 1);
    }
}

/// Once some prefix reports a validation error, every longer prefix
/// reports the same one.
pub proof fn lemma_first_error_some_stable(f: spec_fn(int) -> Option<GltfError>, n: int, m: int)
    requires
        0 <= n <= m,
        first_error(f, n) is Some,
    ensures
        first_error(f, m) == first_error(f, n),
    decreases m,
{
    if m > n {
        lemma_first_error_some_stable(f, n, m - 1);
    }
}

/// When every position below `j` passes and position `j` fails, the whole
/// validation reports exactly the error of position `j`.
pub proof fn lemma_first_error_at(f: spec_fn(int) -> Option<GltfError>, j: int, n: int)
    requires
        0 <= j < n,
        forall|i: int| 0 <= i < j ==> (#[trigger] f(i)) is None,
        f(j) is Some,
    ensures
        first_error(f, n) == f(j),
{
    lemma_first_error_none_iff(f, j);
    assert(first_error(f, j + 1) == f(j));
    lemma_first_error_some_stable(f, j + 1, n);
}

// ------------------------------------------------------------------
// Field readers: required and optional scalar fields of one entity.
// ------------------------------------------------------------------

/// A required unsigned-integer field: absent fails as missing, present
/// with any other type fails as a mismatch.
pub open spec fn spec_req_uint(
    v: JsonValue,
    key: Seq<char>,
    ent: Entity,
    fld: Field,
    at: usize,
) -> Result<u64, GltfError> {
    match spec_get(v, key) {
        Option::None => Err(GltfError::MissingField { entity: ent, field: fld, index: at }),
        Option::Some(JsonValue::UInt(n)) => Ok(n),
        Option::Some(_) => Err(GltfError::TypeMismatch { entity: ent, field: fld, index: at }),
    }
}

/// An optional unsigned-integer field: absent defaults to 0, present with
/// any other type fails as a mismatch (never silently defaulted).
pub open spec fn spec_opt_uint(
    v: JsonValue,
    key: Seq<char>,
    ent: Entity,
    fld: Field,
    at: usize,
) -> Result<u64, GltfError> {
    match spec_get(v, key) {
        Option::None => Ok(0),
        Option::Some(JsonValue::UInt(n)) => Ok(n),
        Option::Some(_) => Err(GltfError::TypeMismatch { entity: ent, field: fld, index: at }),
    }
}

/// A required string field.
pub open spec fn spec_req_str(
    v: JsonValue,
    key: Seq<char>,
    ent: Entity,
    fld: Field,
    at: usize,
) -> Result<String, GltfError> {
    match spec_get(v, key) {
        Option::None => Err(GltfError::MissingField { entity: ent, field: fld, index: at }),
        Option::Some(JsonValue::Str(s)) => Ok(s),
        Option::Some(_) => Err(GltfError::TypeMismatch { entity: ent, field: fld, index: at }),
    }
}

fn req_uint(v: &JsonValue, key: &String, ent: Entity, fld: Field, at: usize) -> (r: Result<
    u64,
    GltfError,
>)
    ensures
        r == spec_req_uint(*v, key@, ent, fld, at),
{
    match get(v, key) {
        Option::None => Err(GltfError::MissingField { entity: ent, field: fld, index: at }),
        Option::Some(f) => match f {
            JsonValue::UInt(n) => Ok(*n),
            _ => Err(GltfError::TypeMismatch { entity: ent, field: fld, index: at }),
        },
    }
}

fn opt_uint(v: &JsonValue, key: &String, ent: Entity, fld: Field, at: usize) -> (r: Result<
    u64,
    GltfError,
>)
    ensures
        r == spec_opt_uint(*v, key@, ent, fld, at),
{
    match get(v, key) {
        Option::None => Ok(0),
        Option::Some(f) => match f {
            JsonValue::UInt(n) => Ok(*n),
            _ => Err(GltfError::TypeMismatch { entity: ent, field: fld, index: at }),
        },
    }
}

fn req_str(v: &JsonValue, key: &String, ent: Entity, fld: Field, at: usize) -> (r: Result<
    String,
    GltfError,
>)
    ensures
        r == spec_req_str(*v, key@, ent, fld, at),
{
    match get(v, key) {
        Option::None => Err(GltfError::MissingField { entity: ent, field: fld, index: at }),
        Option::Some(f) => match f {
            JsonValue::Str(s) => Ok(s.clone()),
            _ => Err(GltfError::TypeMismatch { entity: ent, field: fld, index: at }),
        },
    }
}

// ------------------------------------------------------------------
// Per-element decoding.
// ------------------------------------------------------------------

/// Decodes one element of `buffers`: a required `byteLength` and a
/// required `uri`, read in that order. The `uri` must be a non-empty
/// string: an empty one is rejected as a mismatch on the field, before
/// any attempt to load bytes from it.
pub open spec fn spec_buffer_entry(v: JsonValue, at: usize) -> Result<BufferSpec, GltfError> {
    match spec_req_uint(v, "byteLength"@, Entity::Buffer, Field::ByteLength, at) {
        Err(e) => Err(e),
        Ok(byte_length) => match spec_req_str(v, "uri"@, Entity::Buffer, Field::Uri, at) {
            Err(e) => Err(e),
            Ok(uri) => if uri@.len() == 0 {
                Err(GltfError::TypeMismatch { entity: Entity::Buffer, field: Field::Uri, index: at })
            } else {
                Ok(BufferSpec { byte_length, uri })
            },
        },
    }
}

/// Decodes one element of `bufferViews`: required `buffer`, `byteOffset`
/// and `byteLength`, and an optional `byteStride` defaulting to 0.
pub open spec fn spec_view_entry(v: JsonValue, at: usize) -> Result<BufferView, GltfError> {
    match spec_req_uint(v, "buffer"@, Entity::BufferView, Field::Buffer, at) {
        Err(e) => Err(e),
        Ok(buffer) => match spec_req_uint(
            v,
            "byteOffset"@,
            Entity::BufferView,
            Field::ByteOffset,
            at,
        ) {
            Err(e) => Err(e),
            Ok(byte_offset) => match spec_req_uint(
                v,
                "byteLength"@,
                Entity::BufferView,
                Field::ByteLength,
                at,
            ) {
                Err(e) => Err(e),
                Ok(byte_length) => match spec_opt_uint(
                    v,
                    "byteStride"@,
                    Entity::BufferView,
                    Field::ByteStride,
                    at,
                ) {
                    Err(e) => Err(e),
                    Ok(byte_stride) => Ok(
                        BufferView { buffer, byte_offset, byte_length, byte_stride },
                    ),
                },
            },
        },
    }
}

/// Decodes one element of `accessors`: required `bufferView`, optional
/// `byteOffset` (default 0), required `type` tag, required
/// `componentType` code, required `count`, read in that order.
pub open spec fn spec_accessor_entry(v: JsonValue, at: usize) -> Result<Accessor, GltfError> {
    match spec_req_uint(v, "bufferView"@, Entity::Accessor, Field::BufferView, at) {
        Err(e) => Err(e),
        Ok(buffer_view) => match spec_opt_uint(
            v,
            "byteOffset"@,
            Entity::Accessor,
            Field::ByteOffset,
            at,
        ) {
            Err(e) => Err(e),
            Ok(byte_offset) => match spec_req_str(v, "type"@, Entity::Accessor, Field::ElementType, at) {
                Err(e) => Err(e),
                Ok(tag) => match spec_accessor_type_from_tag(tag, at) {
                    Err(e) => Err(e),
                    Ok(data_type) => match spec_req_uint(
                        v,
                        "componentType"@,
                        Entity::Accessor,
                        Field::ComponentType,
                        at,
                    ) {
                        Err(e) => Err(e),
                        Ok(code) => match spec_component_type_from_code(code, at) {
                            Err(e) => Err(e),
                            Ok(component_type) => match spec_req_uint(
                                v,
                                "count"@,
                                Entity::Accessor,
                                Field::Count,
                                at,
                            ) {
                                Err(e) => Err(e),
                                Ok(count) => Ok(
                                    Accessor {
                                        buffer_view,
                                        byte_offset,
                                        data_type,
                                        component_type,
                                        count,
                                    },
                                ),
                            },
                        },
                    },
                },
            },
        },
    }
}

fn buffer_entry(v: &JsonValue, at: usize) -> (r: Result<BufferSpec, GltfError>)
    ensures
        r == spec_buffer_entry(*v, at),
{
    let byte_length = match req_uint(
        v,
        &String::from_str("byteLength"),
        Entity::Buffer,
        Field::ByteLength,
        at,
    ) {
        Ok(n) => n,
        Err(e) => return Err(e),
    };
    let uri = match req_str(v, &String::from_str("uri"), Entity::Buffer, Field::Uri, at) {
        Ok(s) => s,
        Err(e) => return Err(e),
    };
    if uri.as_str().unicode_len() == 0 {
        return Err(GltfError::TypeMismatch { entity: Entity::Buffer, field: Field::Uri, index: at });
    }
    Ok(BufferSpec { byte_length, uri })
}

fn view_entry(v: &JsonValue, at: usize) -> (r: Result<BufferView, GltfError>)
    ensures
        r == spec_view_entry(*v, at),
{
    let buffer = match req_uint(
        v,
        &String::from_str("buffer"),
        Entity::BufferView,
        Field::Buffer,
        at,
    ) {
        Ok(n) => n,
        Err(e) => return Err(e),
    };
    let byte_offset = match req_uint(
        v,
        &String::from_str("byteOffset"),
        Entity::BufferView,
        Field::ByteOffset,
        at,
    ) {
        Ok(n) => n,
        Err(e) => return Err(e),
    };
    let byte_length = match req_uint(
        v,
        &String::from_str("byteLength"),
        Entity::BufferView,
        Field::ByteLength,
        at,
    ) {
        Ok(n) => n,
        Err(e) => return Err(e),
    };
    let byte_stride = match opt_uint(
        v,
        &String::from_str("byteStride"),
        Entity::BufferView,
        Field::ByteStride,
        at,
    ) {
        Ok(n) => n,
        Err(e) => return Err(e),
    };
    Ok(BufferView { buffer, byte_offset, byte_length, byte_stride })
}

fn accessor_entry(v: &JsonValue, at: usize) -> (r: Result<Accessor, GltfError>)
    ensures
        r == spec_accessor_entry(*v, at),
{
    let buffer_view = match req_uint(
        v,
        &String::from_str("bufferView"),
        Entity::Accessor,
        Field::BufferView,
        at,
    ) {
        Ok(n) => n,
        Err(e) => return Err(e),
    };
    let byte_offset = match opt_uint(
        v,
        &String::from_str("byteOffset"),
        Entity::Accessor,
        Field::ByteOffset,
        at,
    ) {
        Ok(n) => n,
        Err(e) => return Err(e),
    };
    let tag = match req_str(
        v,
        &String::from_str("type"),
        Entity::Accessor,
        Field::ElementType,
        at,
    ) {
        Ok(s) => s,
        Err(e) => return Err(e),
    };
    let data_type = match AccessorType::from_tag(&tag, at) {
        Ok(t) => t,
        Err(e) => return Err(e),
    };
    let code = match req_uint(
        v,
        &String::from_str("componentType"),
        Entity::Accessor,
        Field::ComponentType,
        at,
    ) {
        Ok(n) => n,
        Err(e) => return Err(e),
    };
    let component_type = match ComponentType::from_code(code, at) {
        Ok(t) => t,
        Err(e) => return Err(e),
    };
    let count = match req_uint(v, &String::from_str("count"), Entity::Accessor, Field::Count, at) {
        Ok(n) => n,
        Err(e) => return Err(e),
    };
    Ok(Accessor { buffer_view, byte_offset, data_type, component_type, count })
}

// ------------------------------------------------------------------
// Sections: the three top-level arrays.
// ------------------------------------------------------------------

/// A required top-level array field of the document.
pub open spec fn spec_section(doc: JsonValue, key: Seq<char>, fld: Field) -> Result<
    Seq<JsonValue>,
    GltfError,
> {
    match spec_get(doc, key) {
        Option::None => Err(
            GltfError::MissingField { entity: Entity::Document, field: fld, index: 0 },
        ),
        Option::Some(JsonValue::Arr(elems)) => Ok(elems@),
        Option::Some(_) => Err(
            GltfError::TypeMismatch { entity: Entity::Document, field: fld, index: 0 },
        ),
    }
}

/// The buffer decoder over a given element sequence.
pub open spec fn buffer_entry_at(elems: Seq<JsonValue>) -> spec_fn(int) -> Result<
    BufferSpec,
    GltfError,
> {
    |i: int| spec_buffer_entry(elems[i], i as usize)
}

/// The buffer-view decoder over a given element sequence.
pub open spec fn view_entry_at(elems: Seq<JsonValue>) -> spec_fn(int) -> Result<
    BufferView,
    GltfError,
> {
    |i: int| spec_view_entry(elems[i], i as usize)
}

/// The accessor decoder over a given element sequence.
pub open spec fn accessor_entry_at(elems: Seq<JsonValue>) -> spec_fn(int) -> Result<
    Accessor,
    GltfError,
> {
    |i: int| spec_accessor_entry(elems[i], i as usize)
}

/// The declared buffers of the document: the `buffers` array decoded
/// element by element, lowest failing index first.
pub open spec fn spec_buffer_specs(doc: JsonValue) -> Result<Seq<BufferSpec>, GltfError> {
    match spec_section(doc, "buffers"@, Field::Buffers) {
        Err(e) => Err(e),
        Ok(elems) => decode_fold(buffer_entry_at(elems), elems.len() as int),
    }
}

/// The `bufferViews` array decoded element by element, before
/// cross-reference validation.
pub open spec fn spec_view_entries(doc: JsonValue) -> Result<Seq<BufferView>, GltfError> {
    match spec_section(doc, "bufferViews"@, Field::BufferViews) {
        Err(e) => Err(e),
        Ok(elems) => decode_fold(view_entry_at(elems), elems.len() as int),
    }
}

/// The `accessors` array decoded element by element, before
/// cross-reference validation.
pub open spec fn spec_accessor_entries(doc: JsonValue) -> Result<Seq<Accessor>, GltfError> {
    match spec_section(doc, "accessors"@, Field::Accessors) {
        Err(e) => Err(e),
        Ok(elems) => decode_fold(accessor_entry_at(elems), elems.len() as int),
    }
}

// ------------------------------------------------------------------
// Cross-reference validation.
// ------------------------------------------------------------------

/// The declared byte length of each buffer.
pub open spec fn spec_buffer_lens(specs: Seq<BufferSpec>) -> Seq<u64> {
    Seq::new(specs.len(), |i: int| specs[i].byte_length)
}

/// One step of the buffers stage: decodes the element at position `i`
/// and then checks the blob loaded for it against the declared length,
/// in that order, so within one buffer the field errors precede the
/// length mismatch, and across buffers the lowest index wins whichever
/// kind its error is.
pub open spec fn spec_loaded_buffer(elems: Seq<JsonValue>, datas: Seq<Seq<u8>>, i: int) -> Result<
    BufferSpec,
    GltfError,
> {
    match spec_buffer_entry(elems[i], i as usize) {
        Err(e) => Err(e),
        Ok(b) => if datas[i].len() == b.byte_length {
            Ok(b)
        } else {
            Err(
                GltfError::ByteLengthMismatch {
                    index: i as usize,
                    declared: b.byte_length,
                    actual: datas[i].len() as u64,
                },
            )
        },
    }
}

/// The buffers-stage step over given elements and blobs.
pub open spec fn loaded_buffer_at(elems: Seq<JsonValue>, datas: Seq<Seq<u8>>) -> spec_fn(int) -> Result<
    BufferSpec,
    GltfError,
> {
    |i: int| spec_loaded_buffer(elems, datas, i)
}

/// The whole buffers stage: each element decoded and its blob checked
/// before the next element is looked at, as the buffers are processed
/// one by one in document order.
pub open spec fn spec_loaded_buffers(doc: JsonValue, datas: Seq<Seq<u8>>) -> Result<
    Seq<BufferSpec>,
    GltfError,
> {
    match spec_section(doc, "buffers"@, Field::Buffers) {
        Err(e) => Err(e),
        Ok(elems) => decode_fold(loaded_buffer_at(elems, datas), elems.len() as int),
    }
}

/// Whether one buffer view refers into an existing buffer and stays
/// within its bytes: its `buffer` index must be below the buffer count,
/// and `byte_offset + byte_length` must not exceed that buffer's length.
pub open spec fn spec_view_ok(view: BufferView, lens: Seq<u64>, at: usize) -> Option<GltfError> {
    if view.buffer >= lens.len() {
        Some(
            GltfError::IndexOutOfRange {
                entity: Entity::BufferView,
                field: Field::Buffer,
                index: at,
                value: view.buffer,
                bound: lens.len() as u64,
            },
        )
    } else if view.byte_offset + view.byte_length > lens[view.buffer as int] {
        Some(
            GltfError::ExtentOutOfRange {
                entity: Entity::BufferView,
                index: at,
                end: (view.byte_offset + view.byte_length) as u128,
                bound: lens[view.buffer as int],
            },
        )
    } else {
        None
    }
}

/// The view check over given views and buffer lengths.
pub open spec fn view_ok_at(views: Seq<BufferView>, lens: Seq<u64>) -> spec_fn(int) -> Option<
    GltfError,
> {
    |i: int| spec_view_ok(views[i], lens, i as usize)
}

/// The exclusive end of the byte range an accessor reads inside its view:
/// its offset plus `count` elements of `num_components` components of
/// `byte_width` bytes each.
pub open spec fn spec_accessor_extent(acc: Accessor) -> int {
    acc.byte_offset + acc.count * spec_num_components(acc.data_type) * spec_byte_width(
        acc.component_type,
    )
}

/// Whether one accessor refers into an existing buffer view and its
/// elements stay within that view's bytes.
pub open spec fn spec_accessor_ok(acc: Accessor, views: Seq<BufferView>, at: usize) -> Option<
    GltfError,
> {
    if acc.buffer_view >= views.len() {
        Some(
            GltfError::IndexOutOfRange {
                entity: Entity::Accessor,
                field: Field::BufferView,
                index: at,
                value: acc.buffer_view,
                bound: views.len() as u64,
            },
        )
    } else if spec_accessor_extent(acc) > views[acc.buffer_view as int].byte_length {
        Some(
            GltfError::ExtentOutOfRange {
                entity: Entity::Accessor,
                index: at,
                end: spec_accessor_extent(acc) as u128,
                bound: views[acc.buffer_view as int].byte_length,
            },
        )
    } else {
        None
    }
}

/// The accessor check over given accessors and views.
pub open spec fn accessor_ok_at(accs: Seq<Accessor>, views: Seq<BufferView>) -> spec_fn(int) -> Option<
    GltfError,
> {
    |i: int| spec_accessor_ok(accs[i], views, i as usize)
}

/// The first invalid buffer view, if any.
pub open spec fn spec_check_views(views: Seq<BufferView>, lens: Seq<u64>) -> Option<GltfError> {
    first_error(view_ok_at(views, lens), views.len() as int)
}

/// The first invalid accessor, if any.
pub open spec fn spec_check_accessors(accs: Seq<Accessor>, views: Seq<BufferView>) -> Option<
    GltfError,
> {
    first_error(accessor_ok_at(accs, views), accs.len() as int)
}

/// The document's buffer views, decoded and then validated against the
/// buffers' declared lengths.
pub open spec fn spec_build_views(doc: JsonValue, lens: Seq<u64>) -> Result<
    Seq<BufferView>,
    GltfError,
> {
    match spec_view_entries(doc) {
        Err(e) => Err(e),
        Ok(views) => match spec_check_views(views, lens) {
            Some(e) => Err(e),
            None => Ok(views),
        },
    }
}

/// The document's accessors, decoded and then validated against the
/// buffer views.
pub open spec fn spec_build_accessors(doc: JsonValue, views: Seq<BufferView>) -> Result<
    Seq<Accessor>,
    GltfError,
> {
    match spec_accessor_entries(doc) {
        Err(e) => Err(e),
        Ok(accs) => match spec_check_accessors(accs, views) {
            Some(e) => Err(e),
            None => Ok(accs),
        },
    }
}

/// The byte sequences of a list of loaded blobs.
pub open spec fn datas_bytes(ds: Seq<Vec<u8>>) -> Seq<Seq<u8>> {
    Seq::new(ds.len(), |i: int| ds[i]@)
}

/// The whole parse, after JSON decoding and blob loading: the buffers
/// stage first (each element decoded and its blob checked, in document
/// order), then buffer views, then accessors; the first error is
/// terminal.
pub open spec fn spec_build(doc: JsonValue, datas: Seq<Seq<u8>>) -> Result<ParsedView, GltfError> {
    match spec_loaded_buffers(doc, datas) {
        Err(e) => Err(e),
        Ok(specs) => match spec_build_views(doc, spec_buffer_lens(specs)) {
            Err(e) => Err(e),
            Ok(views) => match spec_build_accessors(doc, views) {
                Err(e) => Err(e),
                Ok(accessors) => Ok(
                    ParsedView { buffers: datas, buffer_views: views, accessors },
                ),
            },
        },
    }
}

// ------------------------------------------------------------------
// The executable parser.
// ------------------------------------------------------------------

/// Extracts the `buffers` array: each buffer's declared byte length and
/// URI. Returns exactly what [`spec_buffer_specs`] says of the document.
pub fn buffer_specs(doc: &JsonValue) -> (r: Result<Vec<BufferSpec>, GltfError>)
    ensures
        match r {
            Ok(specs) => spec_buffer_specs(*doc) == Ok::<Seq<BufferSpec>, GltfError>(specs@),
            Err(e) => spec_buffer_specs(*doc) == Err::<Seq<BufferSpec>, GltfError>(e),
        },
{
    let sec = match get(doc, &String::from_str("buffers")) {
        Option::Some(s) => s,
        Option::None => return Err(
            GltfError::MissingField { entity: Entity::Document, field: Field::Buffers, index: 0 },
        ),
    };
    let elems = match sec {
        JsonValue::Arr(elems) => elems,
        _ => return Err(
            GltfError::TypeMismatch { entity: Entity::Document, field: Field::Buffers, index: 0 },
        ),
    };
    let ghost f = buffer_entry_at(elems@);
    let n = elems.len();
    let mut out: Vec<BufferSpec> = Vec::new();
    let mut i: usize = 0;
    while i < n
        invariant
            i <= n,
            decode_fold(f, i as int) == Ok::<Seq<BufferSpec>, GltfError>(out@),
        decreases n - i,
    {
        assert(f(i as int) == spec_buffer_entry(elems@[i as int], i));
        match buffer_entry(&elems[i], i) {
            Ok(b) => {
                out.push(b);
            },
            Err(e) => {
                proof {
                    lemma_decode_fold_err_stable(f, i as int + 1, n as int);
                }
                return Err(e);
            },
        }
        i = i + 1;
    }
    Ok(out)
}

/// Decodes the `bufferViews` array, without validating it yet.
fn view_entries(doc: &JsonValue) -> (r: Result<Vec<BufferView>, GltfError>)
    ensures
        match r {
            Ok(views) => spec_view_entries(*doc) == Ok::<Seq<BufferView>, GltfError>(views@),
            Err(e) => spec_view_entries(*doc) == Err::<Seq<BufferView>, GltfError>(e),
        },
{
    let sec = match get(doc, &String::from_str("bufferViews")) {
        Option::Some(s) => s,
        Option::None => return Err(
            GltfError::MissingField {
                entity: Entity::Document,
                field: Field::BufferViews,
                index: 0,
            },
        ),
    };
    let elems = match sec {
        JsonValue::Arr(elems) => elems,
        _ => return Err(
            GltfError::TypeMismatch {
                entity: Entity::Document,
                field: Field::BufferViews,
                index: 0,
            },
        ),
    };
    let ghost f = view_entry_at(elems@);
    let n = elems.len();
    let mut out: Vec<BufferView> = Vec::new();
    let mut i: usize = 0;
    while i < n
        invariant
            i <= n,
            decode_fold(f, i as int) == Ok::<Seq<BufferView>, GltfError>(out@),
        decreases n - i,
    {
        assert(f(i as int) == spec_view_entry(elems@[i as int], i));
        match view_entry(&elems[i], i) {
            Ok(b) => {
                out.push(b);
            },
            Err(e) => {
                proof {
                    lemma_decode_fold_err_stable(f, i as int + 1, n as int);
                }
                return Err(e);
            },
        }
        i = i + 1;
    }
    Ok(out)
}

/// Decodes the `accessors` array, without validating it yet.
fn accessor_entries(doc: &JsonValue) -> (r: Result<Vec<Accessor>, GltfError>)
    ensures
        match r {
            Ok(accs) => spec_accessor_entries(*doc) == Ok::<Seq<Accessor>, GltfError>(accs@),
            Err(e) => spec_accessor_entries(*doc) == Err::<Seq<Accessor>, GltfError>(e),
        },
{
    let sec = match get(doc, &String::from_str("accessors")) {
        Option::Some(s) => s,
        Option::None => return Err(
            GltfError::MissingField { entity: Entity::Document, field: Field::Accessors, index: 0 },
        ),
    };
    let elems = match sec {
        JsonValue::Arr(elems) => elems,
        _ => return Err(
            GltfError::TypeMismatch { entity: Entity::Document, field: Field::Accessors, index: 0 },
        ),
    };
    let ghost f = accessor_entry_at(elems@);
    let n = elems.len();
    let mut out: Vec<Accessor> = Vec::new();
    let mut i: usize = 0;
    while i < n
        invariant
            i <= n,
            decode_fold(f, i as int) == Ok::<Seq<Accessor>, GltfError>(out@),
        decreases n - i,
    {
        assert(f(i as int) == spec_accessor_entry(elems@[i as int], i));
        match accessor_entry(&elems[i], i) {
            Ok(b) => {
                out.push(b);
            },
            Err(e) => {
                proof {
                    lemma_decode_fold_err_stable(f, i as int + 1, n as int);
                }
                return Err(e);
            },
        }
        i = i + 1;
    }
    Ok(out)
}

/// The declared byte length of each buffer, in document order.
pub fn buffer_lens(specs: &Vec<BufferSpec>) -> (r: Vec<u64>)
    ensures
        r@ == spec_buffer_lens(specs@),
{
    let n = specs.len();
    let mut out: Vec<u64> = Vec::new();
    let mut i: usize = 0;
    while i < n
        invariant
            i <= n,
            out@.len() == i,
            forall|j: int| 0 <= j < i ==> out@[j] == specs@[j].byte_length,
        decreases n - i,
    {
        out.push(specs[i].byte_length);
        i = i + 1;
    }
    assert(out@ =~= spec_buffer_lens(specs@));
    out
}

/// The number of elements in the document's `buffers` array, or the
/// error for a missing or non-array `buffers` field. The caller uses it
/// to process the buffers one by one, in document order.
pub fn buffer_count(doc: &JsonValue) -> (r: Result<usize, GltfError>)
    ensures
        match r {
            Ok(n) => spec_section(*doc, "buffers"@, Field::Buffers) matches Ok(elems) && n
                == elems.len(),
            Err(e) => spec_section(*doc, "buffers"@, Field::Buffers) == Err::<
                Seq<JsonValue>,
                GltfError,
            >(e),
        },
{
    let sec = match get(doc, &String::from_str("buffers")) {
        Option::Some(s) => s,
        Option::None => return Err(
            GltfError::MissingField { entity: Entity::Document, field: Field::Buffers, index: 0 },
        ),
    };
    match sec {
        JsonValue::Arr(elems) => Ok(elems.len()),
        _ => Err(
            GltfError::TypeMismatch { entity: Entity::Document, field: Field::Buffers, index: 0 },
        ),
    }
}

/// Decodes the `buffers` element at position `at` alone, so that the
/// caller can decode, load and length-check each buffer before looking
/// at the next one, as the buffers are processed in document order.
pub fn buffer_spec_at(doc: &JsonValue, at: usize) -> (r: Result<BufferSpec, GltfError>)
    requires
        spec_section(*doc, "buffers"@, Field::Buffers) matches Ok(elems) && at < elems.len(),
    ensures
        r == spec_buffer_entry(spec_section(*doc, "buffers"@, Field::Buffers)->Ok_0[at as int], at),
{
    let sec = match get(doc, &String::from_str("buffers")) {
        Option::Some(s) => s,
        Option::None => return Err(
            GltfError::MissingField { entity: Entity::Document, field: Field::Buffers, index: 0 },
        ),
    };
    match sec {
        JsonValue::Arr(elems) => buffer_entry(&elems[at], at),
        _ => Err(
            GltfError::TypeMismatch { entity: Entity::Document, field: Field::Buffers, index: 0 },
        ),
    }
}

/// Checks a loaded blob against its buffer's declared length and wraps
/// it as that buffer: fails with `ByteLengthMismatch` carrying both
/// lengths exactly when they differ; on success the buffer holds the
/// blob's bytes unchanged.
pub fn check_buffer_blob(spec: &BufferSpec, blob: Vec<u8>, at: usize) -> (r: Result<
    Buffer,
    GltfError,
>)
    ensures
        match r {
            Ok(b) => blob@.len() == spec.byte_length && b.data == blob,
            Err(e) => blob@.len() != spec.byte_length && e == (GltfError::ByteLengthMismatch {
                index: at,
                declared: spec.byte_length,
                actual: blob@.len() as u64,
            }),
        },
{
    let actual = blob.len();
    if actual as u64 != spec.byte_length {
        return Err(
            GltfError::ByteLengthMismatch {
                index: at,
                declared: spec.byte_length,
                actual: actual as u64,
            },
        );
    }
    Ok(Buffer { data: blob })
}

/// Checks each buffer view's buffer index and byte extent.
fn check_views(views: &Vec<BufferView>, lens: &Vec<u64>) -> (r: Option<GltfError>)
    ensures
        r == spec_check_views(views@, lens@),
{
    let ghost f = view_ok_at(views@, lens@);
    let n = views.len();
    let mut i: usize = 0;
    while i < n
        invariant
            i <= n,
            first_error(f, i as int) is None,
        decreases n - i,
    {
        assert(f(i as int) == spec_view_ok(views@[i as int], lens@, i));
        let v = views[i];
        if v.buffer >= lens.len() as u64 {
            let e = GltfError::IndexOutOfRange {
                entity: Entity::BufferView,
                field: Field::Buffer,
                index: i,
                value: v.buffer,
                bound: lens.len() as u64,
            };
            assert(f(i as int) == Some(e));
            proof {
                lemma_first_error_some_stable(f, i as int + 1, n as int);
            }
            return Some(e);
        }
        let bound = lens[v.buffer as usize];
        let end: u128 = v.byte_offset as u128 + v.byte_length as u128;
        if end > bound as u128 {
            let e = GltfError::ExtentOutOfRange {
                entity: Entity::BufferView,
                index: i,
                end,
                bound,
            };
            assert(f(i as int) == Some(e));
            proof {
                lemma_first_error_some_stable(f, i as int + 1, n as int);
            }
            return Some(e);
        }
        i = i + 1;
    }
    None
}

/// Checks each accessor's view index and byte extent.
fn check_accessors(accs: &Vec<Accessor>, views: &Vec<BufferView>) -> (r: Option<GltfError>)
    ensures
        r == spec_check_accessors(accs@, views@),
{
    let ghost f = accessor_ok_at(accs@, views@);
    let n = accs.len();
    let mut i: usize = 0;
    while i < n
        invariant
            i <= n,
            first_error(f, i as int) is None,
        decreases n - i,
    {
        assert(f(i as int) == spec_accessor_ok(accs@[i as int], views@, i));
        let a = accs[i];
        if a.buffer_view >= views.len() as u64 {
            let e = GltfError::IndexOutOfRange {
                entity: Entity::Accessor,
                field: Field::BufferView,
                index: i,
                value: a.buffer_view,
                bound: views.len() as u64,
            };
            assert(f(i as int) == Some(e));
            proof {
                lemma_first_error_some_stable(f, i as int + 1, n as int);
            }
            return Some(e);
        }
        let bound = views[a.buffer_view as usize].byte_length;
        let nc = a.data_type.num_components();
        let w = a.component_type.byte_width();
        proof {
            assert((a.count as u128) * (nc as u128) <= 0xffff_ffff_ffff_ffff * 16)
                by (nonlinear_arith)
                requires
                    a.count <= 0xffff_ffff_ffff_ffff,
                    nc <= 16,
            ;
        }
        let comps: u128 = (a.count as u128) * (nc as u128);
        proof {
            assert(comps * (w as u128) <= (0xffff_ffff_ffff_ffff * 16) * 4) by (nonlinear_arith)
                requires
                    comps <= 0xffff_ffff_ffff_ffff * 16,
                    w <= 4,
            ;
        }
        let end: u128 = (a.byte_offset as u128) + comps * (w as u128);
        proof {
            assert(end == spec_accessor_extent(a));
        }
        if end > bound as u128 {
            let e = GltfError::ExtentOutOfRange { entity: Entity::Accessor, index: i, end, bound };
            assert(f(i as int) == Some(e));
            proof {
                lemma_first_error_some_stable(f, i as int + 1, n as int);
            }
            return Some(e);
        }
        i = i + 1;
    }
    None
}

/// Extracts and validates the `bufferViews` array against the buffers'
/// declared byte lengths: each view's `buffer` index must be below
/// `buffer_lengths.len()` and its byte range must lie inside that buffer.
pub fn build_buffer_views(doc: &JsonValue, buffer_lengths: &Vec<u64>) -> (r: Result<
    Vec<BufferView>,
    GltfError,
>)
    ensures
        match r {
            Ok(views) => spec_build_views(*doc, buffer_lengths@) == Ok::<
                Seq<BufferView>,
                GltfError,
            >(views@),
            Err(e) => spec_build_views(*doc, buffer_lengths@) == Err::<Seq<BufferView>, GltfError>(
                e,
            ),
        },
{
    let views = match view_entries(doc) {
        Ok(v) => v,
        Err(e) => return Err(e),
    };
    match check_views(&views, buffer_lengths) {
        Some(e) => Err(e),
        None => Ok(views),
    }
}

/// Extracts and validates the `accessors` array against the buffer views:
/// each accessor's `bufferView` index must be below `views.len()` and its
/// elements must lie inside that view's byte range.
pub fn build_accessors(doc: &JsonValue, views: &Vec<BufferView>) -> (r: Result<
    Vec<Accessor>,
    GltfError,
>)
    ensures
        match r {
            Ok(accs) => spec_build_accessors(*doc, views@) == Ok::<Seq<Accessor>, GltfError>(
                accs@,
            ),
            Err(e) => spec_build_accessors(*doc, views@) == Err::<Seq<Accessor>, GltfError>(e),
        },
{
    let accs = match accessor_entries(doc) {
        Ok(a) => a,
        Err(e) => return Err(e),
    };
    match check_accessors(&accs, views) {
        Some(e) => Err(e),
        None => Ok(accs),
    }
}

/// Wraps each loaded blob as a buffer, keeping content and order.
fn wrap_buffers(datas: Vec<Vec<u8>>) -> (r: Vec<Buffer>)
    ensures
        r@.len() == datas@.len(),
        forall|i: int| 0 <= i < r@.len() ==> r@[i].data == datas@[i],
{
    let mut rest = datas;
    let ghost all = rest@;
    let mut out: Vec<Buffer> = Vec::new();
    while rest.len() > 0
        invariant
            out@.len() + rest@.len() == all.len(),
            forall|i: int| 0 <= i < out@.len() ==> out@[i].data == all[i],
            forall|i: int| 0 <= i < rest@.len() ==> rest@[i] == all[out@.len() + i],
        decreases rest@.len(),
    {
        let b = rest.remove(0);
        out.push(Buffer { data: b });
    }
    out
}

/// Builds the validated document from its JSON model and the loaded
/// blobs, one blob per element of the `buffers` array: each buffer is
/// decoded and its blob length-checked before the next one is looked
/// at, then the buffer views and the accessors follow, and the first
/// error aborts the parse. On success the returned buffers hold exactly
/// the given bytes.
pub fn build_document(doc: &JsonValue, datas: Vec<Vec<u8>>) -> (r: Result<ParsedGLTF, GltfError>)
    requires
        spec_section(*doc, "buffers"@, Field::Buffers) matches Ok(elems) ==> elems.len()
            == datas@.len(),
    ensures
        match r {
            Ok(d) => spec_build(*doc, datas_bytes(datas@)) == Ok::<ParsedView, GltfError>(d@),
            Err(e) => spec_build(*doc, datas_bytes(datas@)) == Err::<ParsedView, GltfError>(e),
        },
{
    let sec = match get(doc, &String::from_str("buffers")) {
        Option::Some(s) => s,
        Option::None => return Err(
            GltfError::MissingField { entity: Entity::Document, field: Field::Buffers, index: 0 },
        ),
    };
    let elems = match sec {
        JsonValue::Arr(elems) => elems,
        _ => return Err(
            GltfError::TypeMismatch { entity: Entity::Document, field: Field::Buffers, index: 0 },
        ),
    };
    let ghost lf = loaded_buffer_at(elems@, datas_bytes(datas@));
    let n = elems.len();
    let mut specs: Vec<BufferSpec> = Vec::new();
    let mut i: usize = 0;
    while i < n
        invariant
            i <= n,
            decode_fold(lf, i as int) == Ok::<Seq<BufferSpec>, GltfError>(specs@),
        decreases n - i,
    {
        assert(lf(i as int) == spec_loaded_buffer(elems@, datas_bytes(datas@), i as int));
        let b = match buffer_entry(&elems[i], i) {
            Ok(b) => b,
            Err(e) => {
                proof {
                    lemma_decode_fold_err_stable(lf, i as int + 1, n as int);
                }
                return Err(e);
            },
        };
        let actual = datas[i].len();
        if actual as u64 != b.byte_length {
            let e = GltfError::ByteLengthMismatch {
                index: i,
                declared: b.byte_length,
                actual: actual as u64,
            };
            assert(lf(i as int) == Err::<BufferSpec, GltfError>(e));
            proof {
                lemma_decode_fold_err_stable(lf, i as int + 1, n as int);
            }
            return Err(e);
        }
        specs.push(b);
        i = i + 1;
    }
    let lens = buffer_lens(&specs);
    let views = match build_buffer_views(doc, &lens) {
        Ok(v) => v,
        Err(e) => return Err(e),
    };
    let accessors = match build_accessors(doc, &views) {
        Ok(a) => a,
        Err(e) => return Err(e),
    };
    let ghost datas_view = datas_bytes(datas@);
    let buffers = wrap_buffers(datas);
    let parsed = ParsedGLTF { buffers, buffer_views: views, accessors };
    proof {
        assert(buffers_bytes(parsed.buffers@) =~= datas_view);
    }
    Ok(parsed)
}

} // verus!
