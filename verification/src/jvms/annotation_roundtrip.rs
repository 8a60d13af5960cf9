//! Annotations whose counts and tags agree with their contents read back as written.

use crate::jvms::attr::annotation::{
    AnnotationInfo, ParameterAnnotationInfo, SpecAnnotationElement, SpecAnnotationElementValue,
    SpecAnnotationElementValueInfo, SpecAnnotationInfo, SpecParameterAnnotationInfo, SpecTypeAnnotation,
    SpecTypeAnnotationTargetInfo, TypeAnnotation, TypeAnnotationTargetInfoLocalVarTable,
    TypeAnnotationTargetPathInfo,
};
use crate::jvms::read::annotation_reader::{
    is_const_value_tag, spec_read_annotation, spec_read_element, spec_read_element_value,
    spec_read_element_values, spec_read_elements, spec_read_target_info,
};
use crate::jvms::read::bytes::{FromReadContext, Parsed};
use crate::jvms::roundtrip::lemma_counted_roundtrip;
use crate::jvms::wire::{all_wf, lemma_u16_bytes, lemma_vec_roundtrip, Codec};
use crate::jvms::write::annotation_writer::{
    annotation_bytes, element_bytes, element_value_bytes, element_values_bytes, elements_bytes,
    parameter_annotation_bytes, target_info_bytes, type_annotation_bytes,
};
use crate::jvms::write::bytes::{spec_write_vec, u16_bytes, FromWriteContext};
use vstd::prelude::*;

verus! {

/// An element value whose tag names the kind of value it holds, and whose arrays and
/// nested annotations agree with their counts.
pub open spec fn element_value_wf(v: SpecAnnotationElementValueInfo) -> bool
    decreases v,
{
    match v.value {
        SpecAnnotationElementValue::Const { .. } => is_const_value_tag(v.tag),
        SpecAnnotationElementValue::EnumConst { .. } => v.tag == 0x65,
        SpecAnnotationElementValue::Class { .. } => v.tag == 0x63,
        SpecAnnotationElementValue::Annotation { annotation_value } => v.tag == 0x40 && annotation_wf(
            annotation_value,
        ),
        SpecAnnotationElementValue::Array { num_values, values } => v.tag == 0x5B && values.len() == num_values
            && forall|i: int| 0 <= i < values.len() ==> element_value_wf(#[trigger] values[i]),
    }
}

/// An annotation whose count agrees with its element-value pairs, each well-formed.
pub open spec fn annotation_wf(a: SpecAnnotationInfo) -> bool
    decreases a,
{
    a.element_value_pairs.len() == a.num_element_value_pairs && forall|i: int|
        0 <= i < a.element_value_pairs.len() ==> element_wf(#[trigger] a.element_value_pairs[i])
}

/// An element-value pair whose value is well-formed.
pub open spec fn element_wf(e: SpecAnnotationElement) -> bool
    decreases e,
{
    element_value_wf(e.value)
}

/// Writing element-value pairs one after another is writing the first, then the others.
proof fn lemma_elements_bytes_first(s: Seq<SpecAnnotationElement>)
    requires
        s.len() > 0,
    ensures
        elements_bytes(s) == element_bytes(s[0]) + elements_bytes(s.subrange(1, s.len() as int)),
    decreases s.len(),
{
    if s.len() == 1 {
        assert(s.subrange(0, 0) =~= Seq::<SpecAnnotationElement>::empty());
        assert(s.subrange(1, 1) =~= Seq::<SpecAnnotationElement>::empty());
        assert(elements_bytes(s) =~= element_bytes(s[0]) + elements_bytes(s.subrange(1, 1)));
    } else {
        let init = s.subrange(0, s.len() - 1);
        lemma_elements_bytes_first(init);
        assert(init.subrange(1, init.len() as int) =~= s.subrange(1, s.len() as int).subrange(0, s.len() - 2));
        assert(s.subrange(1, s.len() as int)[s.len() - 2] == s[s.len() - 1]);
        assert(elements_bytes(s) =~= element_bytes(s[0]) + elements_bytes(s.subrange(1, s.len() as int)));
    }
}

/// Writing element values one after another is writing the first, then the others.
proof fn lemma_element_values_bytes_first(s: Seq<SpecAnnotationElementValueInfo>)
    requires
        s.len() > 0,
    ensures
        element_values_bytes(s) == element_value_bytes(s[0]) + element_values_bytes(s.subrange(1, s.len() as int)),
    decreases s.len(),
{
    if s.len() == 1 {
        assert(s.subrange(0, 0) =~= Seq::<SpecAnnotationElementValueInfo>::empty());
        assert(s.subrange(1, 1) =~= Seq::<SpecAnnotationElementValueInfo>::empty());
        assert(element_values_bytes(s) =~= element_value_bytes(s[0]) + element_values_bytes(s.subrange(1, 1)));
    } else {
        let init = s.subrange(0, s.len() - 1);
        lemma_element_values_bytes_first(init);
        assert(init.subrange(1, init.len() as int) =~= s.subrange(1, s.len() as int).subrange(0, s.len() - 2));
        assert(s.subrange(1, s.len() as int)[s.len() - 2] == s[s.len() - 1]);
        assert(element_values_bytes(s) =~= element_value_bytes(s[0]) + element_values_bytes(
            s.subrange(1, s.len() as int),
        ));
    }
}

/// A well-formed element value, written and read back, is itself.
pub proof fn lemma_element_value_roundtrip(v: SpecAnnotationElementValueInfo, rest: Seq<u8>)
    requires
        element_value_wf(v),
    ensures
        spec_read_element_value(element_value_bytes(v) + rest) == Parsed::Done(v, element_value_bytes(v).len()),
    decreases v,
{
    let w = element_value_bytes(v);
    let b = w + rest;
    assert(b[0] == v.tag);
    match v.value {
        SpecAnnotationElementValue::Const { const_value_index } => {
            lemma_u16_bytes(const_value_index);
            assert(b[1] == w[1] && b[2] == w[2]);
        },
        SpecAnnotationElementValue::EnumConst { type_name_index, const_name_index } => {
            lemma_u16_bytes(type_name_index);
            lemma_u16_bytes(const_name_index);
            assert(b[1] == w[1] && b[2] == w[2] && b[3] == w[3] && b[4] == w[4]);
        },
        SpecAnnotationElementValue::Class { class_info_index } => {
            lemma_u16_bytes(class_info_index);
            assert(b[1] == w[1] && b[2] == w[2]);
        },
        SpecAnnotationElementValue::Annotation { annotation_value } => {
            lemma_annotation_roundtrip(annotation_value, rest);
            assert(b.skip(1) =~= annotation_bytes(annotation_value) + rest);
        },
        SpecAnnotationElementValue::Array { num_values, values } => {
            lemma_u16_bytes(num_values);
            assert(b[1] == w[1] && b[2] == w[2]);
            lemma_element_values_roundtrip(values, rest);
            assert(b.skip(3) =~= element_values_bytes(values) + rest);
        },
    }
}

/// Well-formed element values, written one after another and read back, are themselves.
pub proof fn lemma_element_values_roundtrip(s: Seq<SpecAnnotationElementValueInfo>, rest: Seq<u8>)
    requires
        forall|i: int| 0 <= i < s.len() ==> element_value_wf(#[trigger] s[i]),
    ensures
        spec_read_element_values(element_values_bytes(s) + rest, s.len()) == Parsed::Done(
            s,
            element_values_bytes(s).len(),
        ),
    decreases s,
{
    if s.len() == 0 {
        assert(element_values_bytes(s) + rest =~= rest);
        assert(s =~= Seq::<SpecAnnotationElementValueInfo>::empty());
    } else {
        let tail = s.subrange(1, s.len() as int);
        lemma_element_values_bytes_first(s);
        let wt = element_values_bytes(tail);
        assert(element_value_wf(s[0]));
        lemma_element_value_roundtrip(s[0], wt + rest);
        assert forall|i: int| 0 <= i < tail.len() implies element_value_wf(#[trigger] tail[i]) by {
            assert(tail[i] == s[i + 1]);
        }
        lemma_element_values_roundtrip(tail, rest);
        let b = element_values_bytes(s) + rest;
        assert(b =~= element_value_bytes(s[0]) + (wt + rest));
        assert(b.skip(element_value_bytes(s[0]).len() as int) =~= wt + rest);
        assert(seq![s[0]] + tail =~= s);
    }
}

/// A well-formed annotation, written and read back, is itself.
pub proof fn lemma_annotation_roundtrip(a: SpecAnnotationInfo, rest: Seq<u8>)
    requires
        annotation_wf(a),
    ensures
        spec_read_annotation(annotation_bytes(a) + rest) == Parsed::Done(a, annotation_bytes(a).len()),
    decreases a,
{
    let w = annotation_bytes(a);
    let b = w + rest;
    lemma_u16_bytes(a.type_index);
    lemma_u16_bytes(a.num_element_value_pairs);
    assert(b[0] == w[0] && b[1] == w[1] && b[2] == w[2] && b[3] == w[3]);
    lemma_elements_roundtrip(a.element_value_pairs, rest);
    assert(b.skip(4) =~= elements_bytes(a.element_value_pairs) + rest);
}

/// A well-formed element-value pair, written and read back, is itself.
pub proof fn lemma_element_roundtrip(e: SpecAnnotationElement, rest: Seq<u8>)
    requires
        element_wf(e),
    ensures
        spec_read_element(element_bytes(e) + rest) == Parsed::Done(e, element_bytes(e).len()),
    decreases e,
{
    let w = element_bytes(e);
    let b = w + rest;
    lemma_u16_bytes(e.element_name_index);
    assert(b[0] == w[0] && b[1] == w[1]);
    lemma_element_value_roundtrip(e.value, rest);
    assert(b.skip(2) =~= element_value_bytes(e.value) + rest);
}

/// Well-formed element-value pairs, written one after another and read back, are themselves.
pub proof fn lemma_elements_roundtrip(s: Seq<SpecAnnotationElement>, rest: Seq<u8>)
    requires
        forall|i: int| 0 <= i < s.len() ==> element_wf(#[trigger] s[i]),
    ensures
        spec_read_elements(elements_bytes(s) + rest, s.len()) == Parsed::Done(s, elements_bytes(s).len()),
    decreases s,
{
    if s.len() == 0 {
        assert(elements_bytes(s) + rest =~= rest);
        assert(s =~= Seq::<SpecAnnotationElement>::empty());
    } else {
        let tail = s.subrange(1, s.len() as int);
        lemma_elements_bytes_first(s);
        let wt = elements_bytes(tail);
        assert(element_wf(s[0]));
        lemma_element_roundtrip(s[0], wt + rest);
        assert forall|i: int| 0 <= i < tail.len() implies element_wf(#[trigger] tail[i]) by {
            assert(tail[i] == s[i + 1]);
        }
        lemma_elements_roundtrip(tail, rest);
        let b = elements_bytes(s) + rest;
        assert(b =~= element_bytes(s[0]) + (wt + rest));
        assert(b.skip(element_bytes(s[0]).len() as int) =~= wt + rest);
        assert(seq![s[0]] + tail =~= s);
    }
}

impl Codec for AnnotationInfo {
    open spec fn spec_wf(v: SpecAnnotationInfo) -> bool {
        annotation_wf(v)
    }

    proof fn lemma_roundtrip(v: SpecAnnotationInfo, rest: Seq<u8>) {
        lemma_annotation_roundtrip(v, rest);
    }
}

impl Codec for ParameterAnnotationInfo {
    open spec fn spec_wf(v: SpecParameterAnnotationInfo) -> bool {
        v.annotations.len() == v.num_annotations && all_wf::<AnnotationInfo>(v.annotations)
    }

    proof fn lemma_roundtrip(v: SpecParameterAnnotationInfo, rest: Seq<u8>) {
        lemma_counted_roundtrip::<AnnotationInfo>(v.num_annotations, v.annotations, rest);
    }
}

/// The target `ti` is laid out as the target type `tt` says.
pub open spec fn target_wf(tt: u8, ti: SpecTypeAnnotationTargetInfo) -> bool {
    match ti {
        SpecTypeAnnotationTargetInfo::TypeParameter { .. } => tt == 0x00 || tt == 0x01,
        SpecTypeAnnotationTargetInfo::SuperType { .. } => tt == 0x10,
        SpecTypeAnnotationTargetInfo::TypeParameterBound { .. } => tt == 0x11 || tt == 0x12,
        SpecTypeAnnotationTargetInfo::Empty => 0x13 <= tt <= 0x15,
        SpecTypeAnnotationTargetInfo::FormalParameter { .. } => tt == 0x16,
        SpecTypeAnnotationTargetInfo::Throws { .. } => tt == 0x17,
        SpecTypeAnnotationTargetInfo::LocalVar { table_length, table } => (tt == 0x40 || tt == 0x41) && table.len()
            == table_length,
        SpecTypeAnnotationTargetInfo::Catch { .. } => tt == 0x42,
        SpecTypeAnnotationTargetInfo::Offset { .. } => 0x43 <= tt <= 0x46,
        SpecTypeAnnotationTargetInfo::TypeArgument { .. } => 0x47 <= tt <= 0x4B,
    }
}

/// A target laid out as its target type says, written and read back, is itself.
pub proof fn lemma_target_info_roundtrip(tt: u8, ti: SpecTypeAnnotationTargetInfo, rest: Seq<u8>)
    requires
        target_wf(tt, ti),
    ensures
        spec_read_target_info(tt, target_info_bytes(ti) + rest) == Parsed::Done(ti, target_info_bytes(ti).len()),
{
    let w = target_info_bytes(ti);
    let b = w + rest;
    match ti {
        SpecTypeAnnotationTargetInfo::TypeParameter { .. } => {
            assert(b[0] == w[0]);
        },
        SpecTypeAnnotationTargetInfo::SuperType { supertype_index } => {
            lemma_u16_bytes(supertype_index);
            assert(b[0] == w[0] && b[1] == w[1]);
        },
        SpecTypeAnnotationTargetInfo::TypeParameterBound { .. } => {
            assert(b[0] == w[0] && b[1] == w[1]);
        },
        SpecTypeAnnotationTargetInfo::Empty => {},
        SpecTypeAnnotationTargetInfo::FormalParameter { .. } => {
            assert(b[0] == w[0]);
        },
        SpecTypeAnnotationTargetInfo::Throws { throws_type_index } => {
            lemma_u16_bytes(throws_type_index);
            assert(b[0] == w[0] && b[1] == w[1]);
        },
        SpecTypeAnnotationTargetInfo::LocalVar { table_length, table } => {
            lemma_counted_roundtrip::<TypeAnnotationTargetInfoLocalVarTable>(table_length, table, rest);
        },
        SpecTypeAnnotationTargetInfo::Catch { exception_table_index } => {
            lemma_u16_bytes(exception_table_index);
            assert(b[0] == w[0] && b[1] == w[1]);
        },
        SpecTypeAnnotationTargetInfo::Offset { offset } => {
            lemma_u16_bytes(offset);
            assert(b[0] == w[0] && b[1] == w[1]);
        },
        SpecTypeAnnotationTargetInfo::TypeArgument { offset, .. } => {
            lemma_u16_bytes(offset);
            assert(b[0] == w[0] && b[1] == w[1] && b[2] == w[2]);
        },
    }
}

impl Codec for TypeAnnotation {
    /// The target is laid out as the target type says, and the counts agree with their lists.
    open spec fn spec_wf(v: SpecTypeAnnotation) -> bool {
        &&& target_wf(v.target_type, v.target_info)
        &&& v.target_path.path.len() == v.target_path.path_length
        &&& v.element_value_pairs.len() == v.num_element_value_pairs
        &&& forall|i: int| 0 <= i < v.element_value_pairs.len() ==> element_wf(#[trigger] v.element_value_pairs[i])
    }

    #[verifier::spinoff_prover]
    #[verifier::rlimit(60)]
    proof fn lemma_roundtrip(v: SpecTypeAnnotation, rest: Seq<u8>) {
        let wt = target_info_bytes(v.target_info);
        let wp = spec_write_vec::<TypeAnnotationTargetPathInfo>(v.target_path.path);
        let we = elements_bytes(v.element_value_pairs);
        let t3 = u16_bytes(v.type_index) + u16_bytes(v.num_element_value_pairs) + we + rest;
        let t2 = wp + t3;
        let t1 = seq![v.target_path.path_length] + t2;
        let b = type_annotation_bytes(v) + rest;
        assert(b =~= seq![v.target_type] + (wt + t1));
        assert(b[0] == v.target_type);
        assert(b.skip(1) =~= wt + t1);
        lemma_target_info_roundtrip(v.target_type, v.target_info, t1);
        let p: int = 1 + wt.len() as int;
        assert(b.skip(p) =~= t1);
        assert(b[p] == v.target_path.path_length);
        assert(b.skip(p + 1) =~= t2);
        assert(all_wf::<TypeAnnotationTargetPathInfo>(v.target_path.path));
        lemma_vec_roundtrip::<TypeAnnotationTargetPathInfo>(v.target_path.path, t3);
        let q: int = p + 1 + wp.len() as int;
        assert(b.skip(q) =~= t3);
        lemma_u16_bytes(v.type_index);
        lemma_u16_bytes(v.num_element_value_pairs);
        assert(b[q] == t3[0] && b[q + 1] == t3[1] && b[q + 2] == t3[2] && b[q + 3] == t3[3]);
        lemma_elements_roundtrip(v.element_value_pairs, rest);
        assert(b.skip(q + 4) =~= we + rest);
    }
}

} // verus!
