//! The laws of the parser: exactly which documents are accepted, what a
//! successful parse returns, and which error a failing parse reports.
//!
//! Each law is stated over the spec functions of [`crate::parse`]; the
//! executable functions there return exactly those spec functions'
//! values, so the laws carry over to the executable parser.

use vstd::prelude::*;

use crate::error::Entity;
use crate::error::Field;
use crate::error::GltfError;
use crate::json::JsonValue;
use crate::parse::accessor_entry_at;
use crate::parse::buffer_entry_at;
use crate::parse::decode_fold;
use crate::parse::first_error;
use crate::parse::lemma_decode_fold_all_ok;
use crate::parse::lemma_decode_fold_first_err;
use crate::parse::lemma_decode_fold_ok;
use crate::parse::loaded_buffer_at;
use crate::parse::spec_buffer_entry;
use crate::parse::spec_loaded_buffers;
use crate::parse::lemma_first_error_at;
use crate::parse::lemma_first_error_none_iff;
use crate::parse::spec_accessor_entries;
use crate::parse::spec_accessor_entry;
use crate::parse::spec_accessor_extent;
use crate::parse::spec_buffer_lens;
use crate::parse::spec_buffer_specs;
use crate::parse::spec_build;
use crate::parse::spec_section;
use crate::parse::spec_view_entries;
use crate::parse::view_ok_at;
use crate::parse::accessor_ok_at;
use crate::types::Accessor;
use crate::types::BufferSpec;
use crate::types::BufferView;
use crate::types::ParsedView;

verus! {

/// Every loaded blob's length equals its buffer's declared length.
pub open spec fn all_data_ok(specs: Seq<BufferSpec>, datas: Seq<Seq<u8>>) -> bool {
    forall|i: int| 0 <= i < specs.len() ==> (#[trigger] specs[i]).byte_length == datas[i].len()
}

/// A buffer view's `buffer` index is in range and its byte range lies
/// inside that buffer.
pub open spec fn view_in_bounds(view: BufferView, lens: Seq<u64>) -> bool {
    &&& view.buffer < lens.len()
    &&& view.byte_offset + view.byte_length <= lens[view.buffer as int]
}

/// Every buffer view is in bounds.
pub open spec fn all_views_ok(views: Seq<BufferView>, lens: Seq<u64>) -> bool {
    forall|i: int| 0 <= i < views.len() ==> view_in_bounds(#[trigger] views[i], lens)
}

/// An accessor's `bufferView` index is in range and the bytes its
/// elements cover lie inside that view.
pub open spec fn accessor_in_bounds(acc: Accessor, views: Seq<BufferView>) -> bool {
    &&& acc.buffer_view < views.len()
    &&& spec_accessor_extent(acc) <= views[acc.buffer_view as int].byte_length
}

/// Every accessor is in bounds.
pub open spec fn all_accessors_ok(accs: Seq<Accessor>, views: Seq<BufferView>) -> bool {
    forall|i: int| 0 <= i < accs.len() ==> accessor_in_bounds(#[trigger] accs[i], views)
}

/// Whether the document decodes structurally: all three sections are
/// present as arrays, every element's required fields are present with
/// the right types, and every enum code and tag is recognized.
pub open spec fn spec_structure_ok(doc: JsonValue) -> bool {
    &&& spec_buffer_specs(doc) is Ok
    &&& spec_view_entries(doc) is Ok
    &&& spec_accessor_entries(doc) is Ok
}

/// With every `buffers` element decoded, the buffers stage passes
/// exactly when every blob's length equals its buffer's declared length,
/// and then yields the decoded buffers.
pub proof fn lemma_buffers_stage(doc: JsonValue, datas: Seq<Seq<u8>>)
    requires
        spec_buffer_specs(doc) is Ok,
        datas.len() == spec_buffer_specs(doc)->Ok_0.len(),
    ensures
        spec_loaded_buffers(doc, datas) is Ok <==> all_data_ok(
            spec_buffer_specs(doc)->Ok_0,
            datas,
        ),
        spec_loaded_buffers(doc, datas) is Ok ==> spec_loaded_buffers(doc, datas)->Ok_0
            == spec_buffer_specs(doc)->Ok_0,
{
    let elems = spec_section(doc, "buffers"@, Field::Buffers)->Ok_0;
    let specs = spec_buffer_specs(doc)->Ok_0;
    let f = buffer_entry_at(elems);
    let g = loaded_buffer_at(elems, datas);
    let n = elems.len() as int;
    lemma_decode_fold_ok(f, n);
    if all_data_ok(specs, datas) {
        assert forall|i: int| 0 <= i < n implies #[trigger] g(i) == Ok::<BufferSpec, GltfError>(
            specs[i],
        ) by {
            assert(f(i) == Ok::<BufferSpec, GltfError>(specs[i]));
            assert(specs[i].byte_length == datas[i].len());
        }
        lemma_decode_fold_all_ok(g, n);
        lemma_decode_fold_ok(g, n);
        let got = decode_fold(g, n)->Ok_0;
        assert forall|i: int| 0 <= i < n implies got[i] == specs[i] by {
            assert(g(i) == Ok::<BufferSpec, GltfError>(specs[i]));
            assert(g(i) == Ok::<BufferSpec, GltfError>(got[i]));
        }
        assert(got =~= specs);
    }
    if decode_fold(g, n) is Ok {
        lemma_decode_fold_ok(g, n);
        assert forall|i: int| 0 <= i < specs.len() implies (#[trigger] specs[i]).byte_length
            == datas[i].len() by {
            assert(g(i) == Ok::<BufferSpec, GltfError>(decode_fold(g, n)->Ok_0[i]));
            assert(f(i) == Ok::<BufferSpec, GltfError>(specs[i]));
        }
    }
}

/// The view-validation stage passes exactly when every view is in bounds.
pub proof fn lemma_view_check_iff(views: Seq<BufferView>, lens: Seq<u64>)
    ensures
        (first_error(view_ok_at(views, lens), views.len() as int) is None) <==> all_views_ok(
            views,
            lens,
        ),
{
    let fv = view_ok_at(views, lens);
    lemma_first_error_none_iff(fv, views.len() as int);
    if all_views_ok(views, lens) {
        assert forall|i: int| 0 <= i < views.len() implies (#[trigger] fv(i)) is None by {
            assert(view_in_bounds(views[i], lens));
        }
    }
    if first_error(fv, views.len() as int) is None {
        assert forall|i: int| 0 <= i < views.len() implies view_in_bounds(
            #[trigger] views[i],
            lens,
        ) by {
            assert(fv(i) is None);
        }
    }
}

/// The accessor-validation stage passes exactly when every accessor is in
/// bounds.
pub proof fn lemma_accessor_check_iff(accs: Seq<Accessor>, views: Seq<BufferView>)
    ensures
        (first_error(accessor_ok_at(accs, views), accs.len() as int) is None) <==> all_accessors_ok(
            accs,
            views,
        ),
{
    let fa = accessor_ok_at(accs, views);
    lemma_first_error_none_iff(fa, accs.len() as int);
    if all_accessors_ok(accs, views) {
        assert forall|i: int| 0 <= i < accs.len() implies (#[trigger] fa(i)) is None by {
            assert(accessor_in_bounds(accs[i], views));
        }
    }
    if first_error(fa, accs.len() as int) is None {
        assert forall|i: int| 0 <= i < accs.len() implies accessor_in_bounds(
            #[trigger] accs[i],
            views,
        ) by {
            assert(fa(i) is None);
        }
    }
}

/// For a structurally well-formed document with one blob per declared
/// buffer, the parse succeeds if and only if every blob's length equals
/// its buffer's declared length, every buffer view's `buffer` index is in
/// range with its byte range inside that buffer, and every accessor's
/// `bufferView` index is in range with its elements inside that view.
pub proof fn lemma_build_success_iff(doc: JsonValue, datas: Seq<Seq<u8>>)
    requires
        spec_structure_ok(doc),
        datas.len() == spec_buffer_specs(doc)->Ok_0.len(),
    ensures
        spec_build(doc, datas) is Ok <==> {
            let specs = spec_buffer_specs(doc)->Ok_0;
            let views = spec_view_entries(doc)->Ok_0;
            let accs = spec_accessor_entries(doc)->Ok_0;
            &&& all_data_ok(specs, datas)
            &&& all_views_ok(views, spec_buffer_lens(specs))
            &&& all_accessors_ok(accs, views)
        },
{
    let specs = spec_buffer_specs(doc)->Ok_0;
    let views = spec_view_entries(doc)->Ok_0;
    let accs = spec_accessor_entries(doc)->Ok_0;
    let lens = spec_buffer_lens(specs);
    lemma_buffers_stage(doc, datas);
    lemma_view_check_iff(views, lens);
    lemma_accessor_check_iff(accs, views);
}

/// A successful parse returns the loaded bytes unchanged: the document's
/// buffers hold exactly the given blobs, in order.
pub proof fn lemma_build_preserves_bytes(doc: JsonValue, datas: Seq<Seq<u8>>)
    requires
        spec_build(doc, datas) is Ok,
    ensures
        spec_build(doc, datas)->Ok_0.buffers == datas,
{
}

/// When the `buffers` elements up to position `j` decode, every blob
/// below `j` matches its declared length, and the blob at `j` does not,
/// the parse fails with `ByteLengthMismatch` carrying position `j` and
/// both lengths — whatever stands in the elements after `j`: the buffers
/// are processed one by one in document order, so a length mismatch at a
/// lower index precedes any defect at a higher one.
pub proof fn lemma_byte_length_mismatch(doc: JsonValue, datas: Seq<Seq<u8>>, j: int)
    requires
        spec_section(doc, "buffers"@, Field::Buffers) is Ok,
        0 <= j < spec_section(doc, "buffers"@, Field::Buffers)->Ok_0.len(),
        forall|i: int| 0 <= i <= j ==> spec_buffer_entry(
            #[trigger] spec_section(doc, "buffers"@, Field::Buffers)->Ok_0[i],
            i as usize,
        ) is Ok,
        forall|i: int| 0 <= i < j ==> (#[trigger] datas[i]).len() == spec_buffer_entry(
            spec_section(doc, "buffers"@, Field::Buffers)->Ok_0[i],
            i as usize,
        )->Ok_0.byte_length,
        datas[j].len() != spec_buffer_entry(
            spec_section(doc, "buffers"@, Field::Buffers)->Ok_0[j],
            j as usize,
        )->Ok_0.byte_length,
    ensures
        spec_build(doc, datas) == Err::<ParsedView, GltfError>(
            GltfError::ByteLengthMismatch {
                index: j as usize,
                declared: spec_buffer_entry(
                    spec_section(doc, "buffers"@, Field::Buffers)->Ok_0[j],
                    j as usize,
                )->Ok_0.byte_length,
                actual: datas[j].len() as u64,
            },
        ),
{
    let elems = spec_section(doc, "buffers"@, Field::Buffers)->Ok_0;
    let g = loaded_buffer_at(elems, datas);
    assert forall|i: int| 0 <= i < j implies (#[trigger] g(i)) is Ok by {
        assert(spec_buffer_entry(elems[i], i as usize) is Ok);
        assert(datas[i].len() == spec_buffer_entry(elems[i], i as usize)->Ok_0.byte_length);
    }
    assert(g(j) == Err::<BufferSpec, GltfError>(
        GltfError::ByteLengthMismatch {
            index: j as usize,
            declared: spec_buffer_entry(elems[j], j as usize)->Ok_0.byte_length,
            actual: datas[j].len() as u64,
        },
    ));
    lemma_decode_fold_first_err(g, j, elems.len() as int);
}

/// When the buffers all check out, every view below position `j` is in
/// bounds, and the view at `j` names a buffer index that is not, the
/// parse fails with `IndexOutOfRange` naming the `buffer` field, the
/// offending index and the valid bound.
pub proof fn lemma_view_index_out_of_range(doc: JsonValue, datas: Seq<Seq<u8>>, j: int)
    requires
        spec_buffer_specs(doc) is Ok,
        datas.len() == spec_buffer_specs(doc)->Ok_0.len(),
        all_data_ok(spec_buffer_specs(doc)->Ok_0, datas),
        spec_view_entries(doc) is Ok,
        0 <= j < spec_view_entries(doc)->Ok_0.len(),
        forall|i: int| 0 <= i < j ==> view_in_bounds(
            #[trigger] spec_view_entries(doc)->Ok_0[i],
            spec_buffer_lens(spec_buffer_specs(doc)->Ok_0),
        ),
        spec_view_entries(doc)->Ok_0[j].buffer >= spec_buffer_specs(doc)->Ok_0.len(),
    ensures
        spec_build(doc, datas) == Err::<ParsedView, GltfError>(
            GltfError::IndexOutOfRange {
                entity: Entity::BufferView,
                field: Field::Buffer,
                index: j as usize,
                value: spec_view_entries(doc)->Ok_0[j].buffer,
                bound: spec_buffer_specs(doc)->Ok_0.len() as u64,
            },
        ),
{
    let specs = spec_buffer_specs(doc)->Ok_0;
    let views = spec_view_entries(doc)->Ok_0;
    let lens = spec_buffer_lens(specs);
    lemma_buffers_stage(doc, datas);
    let fv = view_ok_at(views, lens);
    assert forall|i: int| 0 <= i < j implies (#[trigger] fv(i)) is None by {
        assert(view_in_bounds(views[i], lens));
    }
    assert(fv(j) == Some(
        GltfError::IndexOutOfRange {
            entity: Entity::BufferView,
            field: Field::Buffer,
            index: j as usize,
            value: views[j].buffer,
            bound: specs.len() as u64,
        },
    ));
    lemma_first_error_at(fv, j, views.len() as int);
}

/// The array position an error points at, when it points at one.
pub open spec fn error_position(e: GltfError) -> Option<usize> {
    match e {
        GltfError::JsonSyntax { .. } => None,
        GltfError::MissingField { index, .. } => Some(index),
        GltfError::TypeMismatch { index, .. } => Some(index),
        GltfError::UnrecognizedComponentType { index, .. } => Some(index),
        GltfError::UnrecognizedAccessorType { index, .. } => Some(index),
        GltfError::IndexOutOfRange { index, .. } => Some(index),
        GltfError::ByteLengthMismatch { index, .. } => Some(index),
        GltfError::ExtentOutOfRange { index, .. } => Some(index),
    }
}

/// When the buffers and buffer views are all valid and the accessor
/// element at position `j` is the first that fails to decode, the parse
/// reports exactly that element's error, and the error names position
/// `j`.
pub proof fn lemma_accessor_error_is_positional(doc: JsonValue, datas: Seq<Seq<u8>>, j: int)
    requires
        spec_buffer_specs(doc) is Ok,
        datas.len() == spec_buffer_specs(doc)->Ok_0.len(),
        all_data_ok(spec_buffer_specs(doc)->Ok_0, datas),
        spec_view_entries(doc) is Ok,
        all_views_ok(
            spec_view_entries(doc)->Ok_0,
            spec_buffer_lens(spec_buffer_specs(doc)->Ok_0),
        ),
        spec_section(doc, "accessors"@, Field::Accessors) is Ok,
        0 <= j < spec_section(doc, "accessors"@, Field::Accessors)->Ok_0.len(),
        forall|i: int| 0 <= i < j ==> spec_accessor_entry(
            #[trigger] spec_section(doc, "accessors"@, Field::Accessors)->Ok_0[i],
            i as usize,
        ) is Ok,
        spec_accessor_entry(
            spec_section(doc, "accessors"@, Field::Accessors)->Ok_0[j],
            j as usize,
        ) is Err,
    ensures
        spec_build(doc, datas) == Err::<ParsedView, GltfError>(
            spec_accessor_entry(
                spec_section(doc, "accessors"@, Field::Accessors)->Ok_0[j],
                j as usize,
            )->Err_0,
        ),
        error_position(spec_build(doc, datas)->Err_0) == Some(j as usize),
{
    let specs = spec_buffer_specs(doc)->Ok_0;
    let views = spec_view_entries(doc)->Ok_0;
    let lens = spec_buffer_lens(specs);
    let elems = spec_section(doc, "accessors"@, Field::Accessors)->Ok_0;
    lemma_buffers_stage(doc, datas);
    lemma_view_check_iff(views, lens);
    let fa = accessor_entry_at(elems);
    assert forall|i: int| 0 <= i < j implies (#[trigger] fa(i)) is Ok by {}
    assert(fa(j) is Err);
    lemma_decode_fold_first_err(fa, j, elems.len() as int);
    lemma_accessor_entry_error_position(elems[j], j as usize);
}

/// An accessor element that fails to decode reports its own position.
pub proof fn lemma_accessor_entry_error_position(v: JsonValue, at: usize)
    requires
        spec_accessor_entry(v, at) is Err,
    ensures
        error_position(spec_accessor_entry(v, at)->Err_0) == Some(at),
{
}

} // verus!
