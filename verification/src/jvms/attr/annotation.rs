//! Annotations (JVMS 4.7.16 to 4.7.22): their structures and mathematical values.

use vstd::prelude::*;

verus! {

// annotation {
//     u2 type_index;
//     u2 num_element_value_pairs;
//     {   u2            element_name_index;
//         element_value value;
//     } element_value_pairs[num_element_value_pairs];
// }
#[derive(Debug, PartialEq, Eq)]
pub struct AnnotationInfo {
    pub type_index: u16,
    pub num_element_value_pairs: u16,
    pub element_value_pairs: Vec<AnnotationElement>,
}

// { u2 element_name_index; element_value value; }
#[derive(Debug, PartialEq, Eq)]
pub struct AnnotationElement {
    pub element_name_index: u16,
    pub value: AnnotationElementValueInfo,
}

// element_value { u1 tag; union { ... } value; }
#[derive(Debug, PartialEq, Eq)]
pub struct AnnotationElementValueInfo {
    pub tag: u8,
    pub value: AnnotationElementValue,
}

// The union of element_value, chosen by its tag.
#[derive(Debug, PartialEq, Eq)]
pub enum AnnotationElementValue {
    Const { const_value_index: u16 },
    EnumConst { type_name_index: u16, const_name_index: u16 },
    Class { class_info_index: u16 },
    Annotation { annotation_value: AnnotationInfo },
    Array { num_values: u16, values: Vec<AnnotationElementValueInfo> },
}

// { u2 num_annotations; annotation annotations[num_annotations]; }
#[derive(Debug, PartialEq, Eq)]
pub struct ParameterAnnotationInfo {
    pub num_annotations: u16,
    pub annotations: Vec<AnnotationInfo>,
}

// type_annotation {
//     u1 target_type; union { ... } target_info; type_path target_path;
//     u2 type_index; u2 num_element_value_pairs; element_value_pairs[num_element_value_pairs];
// }
#[derive(Debug, PartialEq, Eq)]
pub struct TypeAnnotation {
    pub target_type: u8,
    pub target_info: TypeAnnotationTargetInfo,
    pub target_path: TypeAnnotationTargetPath,
    pub type_index: u16,
    pub num_element_value_pairs: u16,
    pub element_value_pairs: Vec<AnnotationElement>,
}

// The union target_info, chosen by target_type (JVMS table 4.7.20-A and -B).
#[derive(Debug, Clone, PartialEq, Eq)]
pub enum TypeAnnotationTargetInfo {
    TypeParameter { type_parameter_index: u8 },
    SuperType { supertype_index: u16 },
    TypeParameterBound { type_parameter_index: u8, bound_index: u8 },
    Empty,
    FormalParameter { formal_parameter_index: u8 },
    Throws { throws_type_index: u16 },
    LocalVar { table_length: u16, table: Vec<TypeAnnotationTargetInfoLocalVarTable> },
    Catch { exception_table_index: u16 },
    Offset { offset: u16 },
    TypeArgument { offset: u16, type_argument_index: u8 },
}

// { u2 start_pc; u2 length; u2 index; }
#[derive(Debug, Clone, Copy, PartialEq, Eq, Structural)]
pub struct TypeAnnotationTargetInfoLocalVarTable {
    pub start_pc: u16,
    pub length: u16,
    pub index: u16,
}

// type_path { u1 path_length; { u1 type_path_kind; u1 type_argument_index; } path[path_length]; }
#[derive(Debug, Clone, PartialEq, Eq)]
pub struct TypeAnnotationTargetPath {
    pub path_length: u8,
    pub path: Vec<TypeAnnotationTargetPathInfo>,
}

// { u1 type_path_kind; u1 type_argument_index; }
#[derive(Debug, Clone, Copy, PartialEq, Eq, Structural)]
pub struct TypeAnnotationTargetPathInfo {
    pub type_path_kind: u8,
    pub type_argument_index: u8,
}

/// The mathematical value of an [AnnotationInfo].
pub struct SpecAnnotationInfo {
    pub type_index: u16,
    pub num_element_value_pairs: u16,
    pub element_value_pairs: Seq<SpecAnnotationElement>,
}

/// The mathematical value of an [AnnotationElement].
pub struct SpecAnnotationElement {
    pub element_name_index: u16,
    pub value: SpecAnnotationElementValueInfo,
}

/// The mathematical value of an [AnnotationElementValueInfo].
pub struct SpecAnnotationElementValueInfo {
    pub tag: u8,
    pub value: SpecAnnotationElementValue,
}

/// The mathematical value of an [AnnotationElementValue].
pub enum SpecAnnotationElementValue {
    Const { const_value_index: u16 },
    EnumConst { type_name_index: u16, const_name_index: u16 },
    Class { class_info_index: u16 },
    Annotation { annotation_value: SpecAnnotationInfo },
    Array { num_values: u16, values: Seq<SpecAnnotationElementValueInfo> },
}

/// The mathematical value of a [ParameterAnnotationInfo].
pub struct SpecParameterAnnotationInfo {
    pub num_annotations: u16,
    pub annotations: Seq<SpecAnnotationInfo>,
}

/// The mathematical value of a [TypeAnnotationTargetInfo].
pub enum SpecTypeAnnotationTargetInfo {
    TypeParameter { type_parameter_index: u8 },
    SuperType { supertype_index: u16 },
    TypeParameterBound { type_parameter_index: u8, bound_index: u8 },
    Empty,
    FormalParameter { formal_parameter_index: u8 },
    Throws { throws_type_index: u16 },
    LocalVar { table_length: u16, table: Seq<TypeAnnotationTargetInfoLocalVarTable> },
    Catch { exception_table_index: u16 },
    Offset { offset: u16 },
    TypeArgument { offset: u16, type_argument_index: u8 },
}

/// The mathematical value of a [TypeAnnotationTargetPath].
pub struct SpecTypeAnnotationTargetPath {
    pub path_length: u8,
    pub path: Seq<TypeAnnotationTargetPathInfo>,
}

/// The mathematical value of a [TypeAnnotation].
pub struct SpecTypeAnnotation {
    pub target_type: u8,
    pub target_info: SpecTypeAnnotationTargetInfo,
    pub target_path: SpecTypeAnnotationTargetPath,
    pub type_index: u16,
    pub num_element_value_pairs: u16,
    pub element_value_pairs: Seq<SpecAnnotationElement>,
}

/// The mathematical value of an [AnnotationInfo].
pub open spec fn annotation_view(a: AnnotationInfo) -> SpecAnnotationInfo
    decreases a,
{
    SpecAnnotationInfo {
        type_index: a.type_index,
        num_element_value_pairs: a.num_element_value_pairs,
        element_value_pairs: elements_view(a.element_value_pairs@),
    }
}

/// The mathematical values of the annotations in `v`.
pub open spec fn annotations_view(v: Seq<AnnotationInfo>) -> Seq<SpecAnnotationInfo>
    decreases v,
{
    Seq::new(
        v.len(),
        |i: int|
            if 0 <= i < v.len() {
                annotation_view(v[i])
            } else {
                SpecAnnotationInfo { type_index: 0, num_element_value_pairs: 0, element_value_pairs: Seq::empty() }
            },
    )
}

/// The mathematical value of an [AnnotationElement].
pub open spec fn element_view(e: AnnotationElement) -> SpecAnnotationElement
    decreases e,
{
    SpecAnnotationElement { element_name_index: e.element_name_index, value: element_value_info_view(e.value) }
}

/// The mathematical values of the elements in `v`.
pub open spec fn elements_view(v: Seq<AnnotationElement>) -> Seq<SpecAnnotationElement>
    decreases v,
{
    Seq::new(
        v.len(),
        |i: int|
            if 0 <= i < v.len() {
                element_view(v[i])
            } else {
                SpecAnnotationElement {
                    element_name_index: 0,
                    value: SpecAnnotationElementValueInfo {
                        tag: 0,
                        value: SpecAnnotationElementValue::Const { const_value_index: 0 },
                    },
                }
            },
    )
}

/// The mathematical value of an [AnnotationElementValueInfo].
pub open spec fn element_value_info_view(v: AnnotationElementValueInfo) -> SpecAnnotationElementValueInfo
    decreases v,
{
    SpecAnnotationElementValueInfo {
        tag: v.tag,
        value: match v.value {
            AnnotationElementValue::Const { const_value_index } => SpecAnnotationElementValue::Const {
                const_value_index,
            },
            AnnotationElementValue::EnumConst { type_name_index, const_name_index } =>
                SpecAnnotationElementValue::EnumConst { type_name_index, const_name_index },
            AnnotationElementValue::Class { class_info_index } => SpecAnnotationElementValue::Class {
                class_info_index,
            },
            AnnotationElementValue::Annotation { annotation_value } => SpecAnnotationElementValue::Annotation {
                annotation_value: annotation_view(annotation_value),
            },
            AnnotationElementValue::Array { num_values, values } => SpecAnnotationElementValue::Array {
                num_values,
                values: element_value_infos_view(values@),
            },
        },
    }
}

/// The mathematical values of the element values in `v`.
pub open spec fn element_value_infos_view(v: Seq<AnnotationElementValueInfo>) -> Seq<SpecAnnotationElementValueInfo>
    decreases v,
{
    Seq::new(
        v.len(),
        |i: int|
            if 0 <= i < v.len() {
                element_value_info_view(v[i])
            } else {
                SpecAnnotationElementValueInfo {
                    tag: 0,
                    value: SpecAnnotationElementValue::Const { const_value_index: 0 },
                }
            },
    )
}

/// The mathematical value of a [ParameterAnnotationInfo].
pub open spec fn parameter_annotation_view(p: ParameterAnnotationInfo) -> SpecParameterAnnotationInfo {
    SpecParameterAnnotationInfo { num_annotations: p.num_annotations, annotations: annotations_view(p.annotations@) }
}

/// The mathematical values of the parameter annotations in `v`.
pub open spec fn parameter_annotations_view(v: Seq<ParameterAnnotationInfo>) -> Seq<SpecParameterAnnotationInfo> {
    v.map_values(|p: ParameterAnnotationInfo| parameter_annotation_view(p))
}

/// The mathematical value of a [TypeAnnotationTargetInfo].
pub open spec fn target_info_view(t: TypeAnnotationTargetInfo) -> SpecTypeAnnotationTargetInfo {
    match t {
        TypeAnnotationTargetInfo::TypeParameter { type_parameter_index } =>
            SpecTypeAnnotationTargetInfo::TypeParameter { type_parameter_index },
        TypeAnnotationTargetInfo::SuperType { supertype_index } => SpecTypeAnnotationTargetInfo::SuperType {
            supertype_index,
        },
        TypeAnnotationTargetInfo::TypeParameterBound { type_parameter_index, bound_index } =>
            SpecTypeAnnotationTargetInfo::TypeParameterBound { type_parameter_index, bound_index },
        TypeAnnotationTargetInfo::Empty => SpecTypeAnnotationTargetInfo::Empty,
        TypeAnnotationTargetInfo::FormalParameter { formal_parameter_index } =>
            SpecTypeAnnotationTargetInfo::FormalParameter { formal_parameter_index },
        TypeAnnotationTargetInfo::Throws { throws_type_index } => SpecTypeAnnotationTargetInfo::Throws {
            throws_type_index,
        },
        TypeAnnotationTargetInfo::LocalVar { table_length, table } => SpecTypeAnnotationTargetInfo::LocalVar {
            table_length,
            table: table@,
        },
        TypeAnnotationTargetInfo::Catch { exception_table_index } => SpecTypeAnnotationTargetInfo::Catch {
            exception_table_index,
        },
        TypeAnnotationTargetInfo::Offset { offset } => SpecTypeAnnotationTargetInfo::Offset { offset },
        TypeAnnotationTargetInfo::TypeArgument { offset, type_argument_index } =>
            SpecTypeAnnotationTargetInfo::TypeArgument { offset, type_argument_index },
    }
}

/// The mathematical value of a [TypeAnnotation].
pub open spec fn type_annotation_view(t: TypeAnnotation) -> SpecTypeAnnotation {
    SpecTypeAnnotation {
        target_type: t.target_type,
        target_info: target_info_view(t.target_info),
        target_path: SpecTypeAnnotationTargetPath { path_length: t.target_path.path_length, path: t.target_path.path@ },
        type_index: t.type_index,
        num_element_value_pairs: t.num_element_value_pairs,
        element_value_pairs: elements_view(t.element_value_pairs@),
    }
}

/// The mathematical values of the type annotations in `v`.
pub open spec fn type_annotations_view(v: Seq<TypeAnnotation>) -> Seq<SpecTypeAnnotation> {
    v.map_values(|t: TypeAnnotation| type_annotation_view(t))
}

impl DeepView for AnnotationInfo {
    type V = SpecAnnotationInfo;

    open spec fn deep_view(&self) -> SpecAnnotationInfo {
        annotation_view(*self)
    }
}

impl DeepView for AnnotationElement {
    type V = SpecAnnotationElement;

    open spec fn deep_view(&self) -> SpecAnnotationElement {
        element_view(*self)
    }
}

impl DeepView for AnnotationElementValueInfo {
    type V = SpecAnnotationElementValueInfo;

    open spec fn deep_view(&self) -> SpecAnnotationElementValueInfo {
        element_value_info_view(*self)
    }
}

impl DeepView for ParameterAnnotationInfo {
    type V = SpecParameterAnnotationInfo;

    open spec fn deep_view(&self) -> SpecParameterAnnotationInfo {
        parameter_annotation_view(*self)
    }
}

impl DeepView for TypeAnnotation {
    type V = SpecTypeAnnotation;

    open spec fn deep_view(&self) -> SpecTypeAnnotation {
        type_annotation_view(*self)
    }
}

} // verus!
