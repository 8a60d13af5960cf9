//! Writing annotations.

use crate::jvms::attr::annotation::{
    annotation_view, annotations_view, element_value_info_view, element_value_infos_view, element_view,
    elements_view, parameter_annotation_view, target_info_view, type_annotation_view, AnnotationElement,
    AnnotationElementValue, AnnotationElementValueInfo, AnnotationInfo, ParameterAnnotationInfo,
    SpecAnnotationElement, SpecAnnotationElementValue, SpecAnnotationElementValueInfo, SpecAnnotationInfo,
    SpecParameterAnnotationInfo, SpecTypeAnnotation, SpecTypeAnnotationTargetInfo, TypeAnnotation,
    TypeAnnotationTargetInfo, TypeAnnotationTargetInfoLocalVarTable, TypeAnnotationTargetPathInfo,
};
use crate::jvms::write::bytes::{spec_write_vec, u16_bytes, FromWriteContext, WriteContext};
use vstd::prelude::*;

verus! {

/// The bytes of an annotation: its type index, its count, then its element-value pairs.
pub open spec fn annotation_bytes(a: SpecAnnotationInfo) -> Seq<u8>
    decreases a,
{
    u16_bytes(a.type_index) + u16_bytes(a.num_element_value_pairs) + elements_bytes(a.element_value_pairs)
}

/// The bytes of the element-value pairs of `s`, one after another.
pub open spec fn elements_bytes(s: Seq<SpecAnnotationElement>) -> Seq<u8>
    decreases s,
{
    if s.len() == 0 {
        Seq::empty()
    } else {
        elements_bytes(s.subrange(0, s.len() - 1)) + element_bytes(s[s.len() - 1])
    }
}

/// The bytes of an element-value pair: the name index, then the value.
pub open spec fn element_bytes(e: SpecAnnotationElement) -> Seq<u8>
    decreases e,
{
    u16_bytes(e.element_name_index) + element_value_bytes(e.value)
}

/// The bytes of an element value: its tag, then what the tag says it holds.
pub open spec fn element_value_bytes(v: SpecAnnotationElementValueInfo) -> Seq<u8>
    decreases v,
{
    seq![v.tag] + match v.value {
        SpecAnnotationElementValue::Const { const_value_index } => u16_bytes(const_value_index),
        SpecAnnotationElementValue::EnumConst { type_name_index, const_name_index } => u16_bytes(type_name_index)
            + u16_bytes(const_name_index),
        SpecAnnotationElementValue::Class { class_info_index } => u16_bytes(class_info_index),
        SpecAnnotationElementValue::Annotation { annotation_value } => annotation_bytes(annotation_value),
        SpecAnnotationElementValue::Array { num_values, values } => u16_bytes(num_values) + element_values_bytes(
            values,
        ),
    }
}

/// The bytes of the element values of `s`, one after another.
pub open spec fn element_values_bytes(s: Seq<SpecAnnotationElementValueInfo>) -> Seq<u8>
    decreases s,
{
    if s.len() == 0 {
        Seq::empty()
    } else {
        element_values_bytes(s.subrange(0, s.len() - 1)) + element_value_bytes(s[s.len() - 1])
    }
}

/// Writes an annotation.
pub fn write_annotation(context: &mut WriteContext, a: &AnnotationInfo)
    ensures
        final(context).bytes@ == old(context).bytes@ + annotation_bytes(annotation_view(*a)),
    decreases a,
{
    let ghost start = context.bytes@;
    context.push(&a.type_index);
    context.push(&a.num_element_value_pairs);
    write_elements(context, &a.element_value_pairs);
    proof {
        assert(context.bytes@ =~= start + annotation_bytes(annotation_view(*a)));
    }
}

/// Writes element-value pairs one after another.
pub fn write_elements(context: &mut WriteContext, v: &Vec<AnnotationElement>)
    ensures
        final(context).bytes@ == old(context).bytes@ + elements_bytes(elements_view(v@)),
    decreases v,
{
    let ghost start = context.bytes@;
    let ghost sv = elements_view(v@);
    let mut i: usize = 0;
    while i < v.len()
        invariant
            i <= v.len(),
            sv == elements_view(v@),
            context.bytes@ == start + elements_bytes(sv.subrange(0, i as int)),
        decreases v.len() - i,
    {
        proof {
            assert(decreases_to!(v => v[i as int]));
        }
        write_element(context, &v[i]);
        proof {
            let t = sv.subrange(0, i + 1);
            assert(t.subrange(0, t.len() - 1) =~= sv.subrange(0, i as int));
            assert(t[t.len() - 1] == element_view(v@[i as int]));
        }
        i = i + 1;
    }
    proof {
        assert(sv.subrange(0, v.len() as int) =~= sv);
    }
}

/// Writes an element-value pair.
pub fn write_element(context: &mut WriteContext, e: &AnnotationElement)
    ensures
        final(context).bytes@ == old(context).bytes@ + element_bytes(element_view(*e)),
    decreases e,
{
    let ghost start = context.bytes@;
    context.push(&e.element_name_index);
    write_element_value(context, &e.value);
    proof {
        assert(context.bytes@ =~= start + element_bytes(element_view(*e)));
    }
}

/// Writes an element value.
pub fn write_element_value(context: &mut WriteContext, v: &AnnotationElementValueInfo)
    ensures
        final(context).bytes@ == old(context).bytes@ + element_value_bytes(element_value_info_view(*v)),
    decreases v,
{
    let ghost start = context.bytes@;
    context.push(&v.tag);
    match &v.value {
        AnnotationElementValue::Const { const_value_index } => {
            context.push(const_value_index);
        },
        AnnotationElementValue::EnumConst { type_name_index, const_name_index } => {
            context.push(type_name_index);
            context.push(const_name_index);
        },
        AnnotationElementValue::Class { class_info_index } => {
            context.push(class_info_index);
        },
        AnnotationElementValue::Annotation { annotation_value } => {
            write_annotation(context, annotation_value);
        },
        AnnotationElementValue::Array { num_values, values } => {
            context.push(num_values);
            write_element_values(context, values);
        },
    }
    proof {
        assert(context.bytes@ =~= start + element_value_bytes(element_value_info_view(*v)));
    }
}

/// Writes element values one after another.
pub fn write_element_values(context: &mut WriteContext, v: &Vec<AnnotationElementValueInfo>)
    ensures
        final(context).bytes@ == old(context).bytes@ + element_values_bytes(element_value_infos_view(v@)),
    decreases v,
{
    let ghost start = context.bytes@;
    let ghost sv = element_value_infos_view(v@);
    let mut i: usize = 0;
    while i < v.len()
        invariant
            i <= v.len(),
            sv == element_value_infos_view(v@),
            context.bytes@ == start + element_values_bytes(sv.subrange(0, i as int)),
        decreases v.len() - i,
    {
        proof {
            assert(decreases_to!(v => v[i as int]));
        }
        write_element_value(context, &v[i]);
        proof {
            let t = sv.subrange(0, i + 1);
            assert(t.subrange(0, t.len() - 1) =~= sv.subrange(0, i as int));
            assert(t[t.len() - 1] == element_value_info_view(v@[i as int]));
        }
        i = i + 1;
    }
    proof {
        assert(sv.subrange(0, v.len() as int) =~= sv);
    }
}

impl FromWriteContext for AnnotationInfo {
    open spec fn spec_write(v: SpecAnnotationInfo) -> Seq<u8> {
        annotation_bytes(v)
    }

    fn into_context(context: &mut WriteContext, from: &AnnotationInfo) {
        write_annotation(context, from)
    }
}

/// The bytes of the annotations of one parameter: their count, then each of them.
pub open spec fn parameter_annotation_bytes(p: SpecParameterAnnotationInfo) -> Seq<u8> {
    u16_bytes(p.num_annotations) + spec_write_vec::<AnnotationInfo>(p.annotations)
}

impl FromWriteContext for ParameterAnnotationInfo {
    open spec fn spec_write(v: SpecParameterAnnotationInfo) -> Seq<u8> {
        parameter_annotation_bytes(v)
    }

    fn into_context(context: &mut WriteContext, from: &ParameterAnnotationInfo) {
        let ghost start = context.bytes@;
        context.push(&from.num_annotations);
        context.push(&from.annotations);
        proof {
            assert(from.annotations.deep_view() =~= annotations_view(from.annotations@));
            assert(context.bytes@ =~= start + parameter_annotation_bytes(from.deep_view()));
        }
    }
}

/// The bytes of a target of a type annotation, as its kind lays it out.
pub open spec fn target_info_bytes(t: SpecTypeAnnotationTargetInfo) -> Seq<u8> {
    match t {
        SpecTypeAnnotationTargetInfo::TypeParameter { type_parameter_index } => seq![type_parameter_index],
        SpecTypeAnnotationTargetInfo::SuperType { supertype_index } => u16_bytes(supertype_index),
        SpecTypeAnnotationTargetInfo::TypeParameterBound { type_parameter_index, bound_index } => seq![
            type_parameter_index,
            bound_index,
        ],
        SpecTypeAnnotationTargetInfo::Empty => Seq::empty(),
        SpecTypeAnnotationTargetInfo::FormalParameter { formal_parameter_index } => seq![formal_parameter_index],
        SpecTypeAnnotationTargetInfo::Throws { throws_type_index } => u16_bytes(throws_type_index),
        SpecTypeAnnotationTargetInfo::LocalVar { table_length, table } => u16_bytes(table_length) + spec_write_vec::<
            TypeAnnotationTargetInfoLocalVarTable,
        >(table),
        SpecTypeAnnotationTargetInfo::Catch { exception_table_index } => u16_bytes(exception_table_index),
        SpecTypeAnnotationTargetInfo::Offset { offset } => u16_bytes(offset),
        SpecTypeAnnotationTargetInfo::TypeArgument { offset, type_argument_index } => u16_bytes(offset) + seq![
            type_argument_index,
        ],
    }
}

/// Writes the target of a type annotation.
pub fn write_target_info(context: &mut WriteContext, t: &TypeAnnotationTargetInfo)
    ensures
        final(context).bytes@ == old(context).bytes@ + target_info_bytes(target_info_view(*t)),
{
    let ghost start = context.bytes@;
    match t {
        TypeAnnotationTargetInfo::TypeParameter { type_parameter_index } => {
            context.push(type_parameter_index);
        },
        TypeAnnotationTargetInfo::SuperType { supertype_index } => {
            context.push(supertype_index);
        },
        TypeAnnotationTargetInfo::TypeParameterBound { type_parameter_index, bound_index } => {
            context.push(type_parameter_index);
            context.push(bound_index);
        },
        TypeAnnotationTargetInfo::Empty => {},
        TypeAnnotationTargetInfo::FormalParameter { formal_parameter_index } => {
            context.push(formal_parameter_index);
        },
        TypeAnnotationTargetInfo::Throws { throws_type_index } => {
            context.push(throws_type_index);
        },
        TypeAnnotationTargetInfo::LocalVar { table_length, table } => {
            context.push(table_length);
            context.push(table);
            proof {
                assert(table.deep_view() =~= table@);
            }
        },
        TypeAnnotationTargetInfo::Catch { exception_table_index } => {
            context.push(exception_table_index);
        },
        TypeAnnotationTargetInfo::Offset { offset } => {
            context.push(offset);
        },
        TypeAnnotationTargetInfo::TypeArgument { offset, type_argument_index } => {
            context.push(offset);
            context.push(type_argument_index);
        },
    }
    proof {
        assert(context.bytes@ =~= start + target_info_bytes(target_info_view(*t)));
    }
}

/// The bytes of a type annotation: its target type and target, its type path, its type
/// index, then its element-value pairs with their count.
pub open spec fn type_annotation_bytes(t: SpecTypeAnnotation) -> Seq<u8> {
    seq![t.target_type] + target_info_bytes(t.target_info) + seq![t.target_path.path_length] + spec_write_vec::<
        TypeAnnotationTargetPathInfo,
    >(t.target_path.path) + u16_bytes(t.type_index) + u16_bytes(t.num_element_value_pairs) + elements_bytes(
        t.element_value_pairs,
    )
}

impl FromWriteContext for TypeAnnotation {
    open spec fn spec_write(v: SpecTypeAnnotation) -> Seq<u8> {
        type_annotation_bytes(v)
    }

    fn into_context(context: &mut WriteContext, from: &TypeAnnotation) {
        let ghost start = context.bytes@;
        context.push(&from.target_type);
        write_target_info(context, &from.target_info);
        context.push(&from.target_path.path_length);
        context.push(&from.target_path.path);
        context.push(&from.type_index);
        context.push(&from.num_element_value_pairs);
        write_elements(context, &from.element_value_pairs);
        proof {
            assert(from.target_path.path.deep_view() =~= from.target_path.path@);
            assert(context.bytes@ =~= start + type_annotation_bytes(from.deep_view()));
        }
    }
}

} // verus!
