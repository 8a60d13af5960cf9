//! The attributes of a class file (JVMS 4.7), once their bodies are read.

use crate::jvms::element::{AttributeInfo, SpecAttributeInfo};
use vstd::prelude::*;

pub mod annotation;
pub mod annotation_tables;
pub mod module;
pub mod tables;

use crate::jvms::attr::annotation::{
    annotations_view, element_value_info_view, parameter_annotations_view, type_annotations_view, AnnotationInfo,
    AnnotationElementValueInfo, ParameterAnnotationInfo, SpecAnnotationElementValueInfo, SpecAnnotationInfo,
    SpecParameterAnnotationInfo, SpecTypeAnnotation, TypeAnnotation,
};
use crate::jvms::attr::module::{
    ModuleExports, ModuleOpens, ModuleProvides, ModuleRequires, SpecModuleExports, SpecModuleOpens,
    SpecModuleProvides,
};

verus! {

/// The body of an attribute. [Attribute::Custom] holds the bytes of a body that has not
/// been read, or whose name this library does not read.
#[derive(Debug, PartialEq, Eq)]
pub enum Attribute {
    Custom(Vec<u8>),
    // ConstantValue_attribute { u2 constantvalue_index; }
    ConstantValue { constantvalue_index: u16 },
    // Code_attribute {
    //     u2 max_stack; u2 max_locals;
    //     u4 code_length; u1 code[code_length];
    //     u2 exception_table_length; exception_table[exception_table_length];
    //     u2 attributes_count; attribute_info attributes[attributes_count];
    // }
    Code {
        max_stack: u16,
        max_locals: u16,
        code_length: u32,
        code: Vec<u8>,
        exception_table_length: u16,
        exception_table: Vec<ExceptionTable>,
        attributes_count: u16,
        attributes: Vec<AttributeInfo>,
    },
    // StackMapTable_attribute { u2 number_of_entries; stack_map_frame entries[number_of_entries]; }
    StackMapTable { number_of_entries: u16, entries: Vec<StackMapFrame> },
    // Exceptions_attribute { u2 number_of_exceptions; u2 exception_index_table[number_of_exceptions]; }
    Exceptions { number_of_exceptions: u16, exception_index_table: Vec<u16> },
    // InnerClasses_attribute { u2 number_of_classes; classes[number_of_classes]; }
    InnerClasses { number_of_classes: u16, classes: Vec<InnerClassInfo> },
    // EnclosingMethod_attribute { u2 class_index; u2 method_index; }
    EnclosingMethod { class_index: u16, method_index: u16 },
    // Synthetic_attribute {}
    Synthetic,
    // Signature_attribute { u2 signature_index; }
    Signature { signature_index: u16 },
    // SourceFile_attribute { u2 sourcefile_index; }
    SourceFile { sourcefile_index: u16 },
    // SourceDebugExtension_attribute { u1 debug_extension[attribute_length]; }
    SourceDebugExtension { debug_extension: Vec<u8> },
    // LineNumberTable_attribute { u2 line_number_table_length; line_number_table[..]; }
    LineNumberTable { line_number_table_length: u16, line_number_table: Vec<LineNumberTableInfo> },
    // LocalVariableTable_attribute { u2 local_variable_table_length; local_variable_table[..]; }
    LocalVariableTable {
        local_variable_table_length: u16,
        local_variable_table: Vec<LocalVariableTableInfo>,
    },
    // LocalVariableTypeTable_attribute { u2 local_variable_type_table_length; local_variable_type_table[..]; }
    LocalVariableTypeTable {
        local_variable_type_table_length: u16,
        local_variable_table: Vec<LocalVariableTypeTableInfo>,
    },
    // Deprecated_attribute {}
    Deprecated,
    // RuntimeVisibleAnnotations_attribute { u2 num_annotations; annotation annotations[num_annotations]; }
    RuntimeVisibleAnnotations { num_annotations: u16, annotations: Vec<AnnotationInfo> },
    // RuntimeInvisibleAnnotations_attribute, laid out as the visible one
    RuntimeInvisibleAnnotations { num_annotations: u16, annotations: Vec<AnnotationInfo> },
    // RuntimeVisibleParameterAnnotations_attribute {
    //     u1 num_parameters; { u2 num_annotations; annotation annotations[..]; } parameter_annotations[..];
    // }
    RuntimeVisibleParameterAnnotations { num_parameters: u8, parameter_annotations: Vec<ParameterAnnotationInfo> },
    // RuntimeInvisibleParameterAnnotations_attribute, laid out as the visible one
    RuntimeInvisibleParameterAnnotations { num_parameters: u8, parameter_annotations: Vec<ParameterAnnotationInfo> },
    // RuntimeVisibleTypeAnnotations_attribute { u2 num_annotations; type_annotation annotations[..]; }
    RuntimeVisibleTypeAnnotations { num_parameters: u16, annotations: Vec<TypeAnnotation> },
    // RuntimeInvisibleTypeAnnotations_attribute, laid out as the visible one
    RuntimeInvisibleTypeAnnotations { num_parameters: u16, annotations: Vec<TypeAnnotation> },
    // AnnotationDefault_attribute { element_value default_value; }
    AnnotationDefault { default_value: AnnotationElementValueInfo },
    // BootstrapMethods_attribute { u2 num_bootstrap_methods; bootstrap_methods[..]; }
    BootstrapMethods { num_bootstrap_methods: u16, bootstrap_methods: Vec<BootstrapMethod> },
    // MethodParameters_attribute { u1 parameters_count; parameters[parameters_count]; }
    MethodParameters { parameters_count: u8, parameters: Vec<MethodParameter> },
    // Module_attribute (JVMS 4.7.25)
    Module {
        module_name_index: u16,
        module_flags: u16,
        module_version_index: u16,
        requires_count: u16,
        module_requires: Vec<ModuleRequires>,
        exports_count: u16,
        exports: Vec<ModuleExports>,
        opens_count: u16,
        opens: Vec<ModuleOpens>,
        uses_count: u16,
        uses_index: Vec<u16>,
        provides_count: u16,
        provides: Vec<ModuleProvides>,
    },
    // ModulePackages_attribute { u2 package_count; u2 package_index[package_count]; }
    ModulePackages { package_count: u16, package_index: Vec<u16> },
    // ModuleMainClass_attribute { u2 main_class_index; }
    ModuleMainClass { main_class_index: u16 },
    // NestHost_attribute { u2 host_class_index; }
    NestHost { host_class_index: u16 },
    // NestMembers_attribute { u2 number_of_classes; u2 classes[number_of_classes]; }
    NestMembers { number_of_classes: u16, classes: Vec<u16> },
    // Record_attribute { u2 components_count; record_component_info components[components_count]; }
    Record { components_count: u16, components: Vec<RecordComponentInfo> },
    // PermittedSubclasses_attribute { u2 number_of_classes; u2 classes[number_of_classes]; }
    PermittedSubclasses { number_of_classes: u16, classes: Vec<u16> },
}

/// The mathematical value of an [Attribute].
pub enum SpecAttribute {
    Custom(Seq<u8>),
    ConstantValue { constantvalue_index: u16 },
    Code {
        max_stack: u16,
        max_locals: u16,
        code_length: u32,
        code: Seq<u8>,
        exception_table_length: u16,
        exception_table: Seq<ExceptionTable>,
        attributes_count: u16,
        attributes: Seq<SpecAttributeInfo>,
    },
    StackMapTable { number_of_entries: u16, entries: Seq<SpecStackMapFrame> },
    Exceptions { number_of_exceptions: u16, exception_index_table: Seq<u16> },
    InnerClasses { number_of_classes: u16, classes: Seq<InnerClassInfo> },
    EnclosingMethod { class_index: u16, method_index: u16 },
    Synthetic,
    Signature { signature_index: u16 },
    SourceFile { sourcefile_index: u16 },
    SourceDebugExtension { debug_extension: Seq<u8> },
    LineNumberTable { line_number_table_length: u16, line_number_table: Seq<LineNumberTableInfo> },
    LocalVariableTable {
        local_variable_table_length: u16,
        local_variable_table: Seq<LocalVariableTableInfo>,
    },
    LocalVariableTypeTable {
        local_variable_type_table_length: u16,
        local_variable_table: Seq<LocalVariableTypeTableInfo>,
    },
    Deprecated,
    RuntimeVisibleAnnotations { num_annotations: u16, annotations: Seq<SpecAnnotationInfo> },
    RuntimeInvisibleAnnotations { num_annotations: u16, annotations: Seq<SpecAnnotationInfo> },
    RuntimeVisibleParameterAnnotations { num_parameters: u8, parameter_annotations: Seq<SpecParameterAnnotationInfo> },
    RuntimeInvisibleParameterAnnotations { num_parameters: u8, parameter_annotations: Seq<SpecParameterAnnotationInfo> },
    RuntimeVisibleTypeAnnotations { num_parameters: u16, annotations: Seq<SpecTypeAnnotation> },
    RuntimeInvisibleTypeAnnotations { num_parameters: u16, annotations: Seq<SpecTypeAnnotation> },
    AnnotationDefault { default_value: SpecAnnotationElementValueInfo },
    BootstrapMethods { num_bootstrap_methods: u16, bootstrap_methods: Seq<SpecBootstrapMethod> },
    MethodParameters { parameters_count: u8, parameters: Seq<MethodParameter> },
    Module {
        module_name_index: u16,
        module_flags: u16,
        module_version_index: u16,
        requires_count: u16,
        module_requires: Seq<ModuleRequires>,
        exports_count: u16,
        exports: Seq<SpecModuleExports>,
        opens_count: u16,
        opens: Seq<SpecModuleOpens>,
        uses_count: u16,
        uses_index: Seq<u16>,
        provides_count: u16,
        provides: Seq<SpecModuleProvides>,
    },
    ModulePackages { package_count: u16, package_index: Seq<u16> },
    ModuleMainClass { main_class_index: u16 },
    NestHost { host_class_index: u16 },
    NestMembers { number_of_classes: u16, classes: Seq<u16> },
    Record { components_count: u16, components: Seq<SpecRecordComponentInfo> },
    PermittedSubclasses { number_of_classes: u16, classes: Seq<u16> },
}

/// The mathematical value of an [AttributeInfo].
pub open spec fn attribute_info_view(a: AttributeInfo) -> SpecAttributeInfo
    decreases a,
{
    SpecAttributeInfo {
        attribute_name_index: a.attribute_name_index,
        attribute_length: a.attribute_length,
        info: attribute_view(a.info),
    }
}

/// The mathematical values of the attributes in `v`.
pub open spec fn attribute_infos_view(v: Seq<AttributeInfo>) -> Seq<SpecAttributeInfo>
    decreases v,
{
    Seq::new(
        v.len(),
        |i: int|
            if 0 <= i < v.len() {
                attribute_info_view(v[i])
            } else {
                SpecAttributeInfo { attribute_name_index: 0, attribute_length: 0, info: SpecAttribute::Synthetic }
            },
    )
}

/// The mathematical value of a [RecordComponentInfo].
pub open spec fn record_component_view(r: RecordComponentInfo) -> SpecRecordComponentInfo
    decreases r,
{
    SpecRecordComponentInfo {
        name_index: r.name_index,
        descriptor_index: r.descriptor_index,
        attributes_count: r.attributes_count,
        attributes: attribute_infos_view(r.attributes@),
    }
}

/// The mathematical values of the record components in `v`.
pub open spec fn record_components_view(v: Seq<RecordComponentInfo>) -> Seq<SpecRecordComponentInfo>
    decreases v,
{
    Seq::new(
        v.len(),
        |i: int|
            if 0 <= i < v.len() {
                record_component_view(v[i])
            } else {
                SpecRecordComponentInfo {
                    name_index: 0,
                    descriptor_index: 0,
                    attributes_count: 0,
                    attributes: Seq::empty(),
                }
            },
    )
}

/// The mathematical value of an [Attribute].
pub open spec fn attribute_view(a: Attribute) -> SpecAttribute
    decreases a,
{
    match a {
        Attribute::Custom(bytes) => SpecAttribute::Custom(bytes@),
        Attribute::ConstantValue { constantvalue_index } => SpecAttribute::ConstantValue { constantvalue_index },
        Attribute::Code {
            max_stack,
            max_locals,
            code_length,
            code,
            exception_table_length,
            exception_table,
            attributes_count,
            attributes,
        } => SpecAttribute::Code {
            max_stack,
            max_locals,
            code_length,
            code: code@,
            exception_table_length,
            exception_table: exception_table.deep_view(),
            attributes_count,
            attributes: attribute_infos_view(attributes@),
        },
        Attribute::StackMapTable { number_of_entries, entries } => SpecAttribute::StackMapTable {
            number_of_entries,
            entries: entries.deep_view(),
        },
        Attribute::Exceptions { number_of_exceptions, exception_index_table } => SpecAttribute::Exceptions {
            number_of_exceptions,
            exception_index_table: exception_index_table.deep_view(),
        },
        Attribute::InnerClasses { number_of_classes, classes } => SpecAttribute::InnerClasses {
            number_of_classes,
            classes: classes.deep_view(),
        },
        Attribute::EnclosingMethod { class_index, method_index } => SpecAttribute::EnclosingMethod {
            class_index,
            method_index,
        },
        Attribute::Synthetic => SpecAttribute::Synthetic,
        Attribute::Signature { signature_index } => SpecAttribute::Signature { signature_index },
        Attribute::SourceFile { sourcefile_index } => SpecAttribute::SourceFile { sourcefile_index },
        Attribute::SourceDebugExtension { debug_extension } => SpecAttribute::SourceDebugExtension {
            debug_extension: debug_extension@,
        },
        Attribute::LineNumberTable { line_number_table_length, line_number_table } =>
            SpecAttribute::LineNumberTable { line_number_table_length, line_number_table: line_number_table.deep_view() },
        Attribute::LocalVariableTable { local_variable_table_length, local_variable_table } =>
            SpecAttribute::LocalVariableTable {
                local_variable_table_length,
                local_variable_table: local_variable_table.deep_view(),
            },
        Attribute::LocalVariableTypeTable { local_variable_type_table_length, local_variable_table } =>
            SpecAttribute::LocalVariableTypeTable {
                local_variable_type_table_length,
                local_variable_table: local_variable_table.deep_view(),
            },
        Attribute::Deprecated => SpecAttribute::Deprecated,
        Attribute::RuntimeVisibleAnnotations { num_annotations, annotations } =>
            SpecAttribute::RuntimeVisibleAnnotations { num_annotations, annotations: annotations_view(annotations@) },
        Attribute::RuntimeInvisibleAnnotations { num_annotations, annotations } =>
            SpecAttribute::RuntimeInvisibleAnnotations { num_annotations, annotations: annotations_view(annotations@) },
        Attribute::RuntimeVisibleParameterAnnotations { num_parameters, parameter_annotations } =>
            SpecAttribute::RuntimeVisibleParameterAnnotations {
                num_parameters,
                parameter_annotations: parameter_annotations_view(parameter_annotations@),
            },
        Attribute::RuntimeInvisibleParameterAnnotations { num_parameters, parameter_annotations } =>
            SpecAttribute::RuntimeInvisibleParameterAnnotations {
                num_parameters,
                parameter_annotations: parameter_annotations_view(parameter_annotations@),
            },
        Attribute::RuntimeVisibleTypeAnnotations { num_parameters, annotations } =>
            SpecAttribute::RuntimeVisibleTypeAnnotations { num_parameters, annotations: type_annotations_view(annotations@) },
        Attribute::RuntimeInvisibleTypeAnnotations { num_parameters, annotations } =>
            SpecAttribute::RuntimeInvisibleTypeAnnotations { num_parameters, annotations: type_annotations_view(annotations@) },
        Attribute::AnnotationDefault { default_value } => SpecAttribute::AnnotationDefault {
            default_value: element_value_info_view(default_value),
        },
        Attribute::BootstrapMethods { num_bootstrap_methods, bootstrap_methods } =>
            SpecAttribute::BootstrapMethods {
                num_bootstrap_methods,
                bootstrap_methods: bootstrap_methods.deep_view(),
            },
        Attribute::MethodParameters { parameters_count, parameters } => SpecAttribute::MethodParameters {
            parameters_count,
            parameters: parameters.deep_view(),
        },
        Attribute::Module {
            module_name_index,
            module_flags,
            module_version_index,
            requires_count,
            module_requires,
            exports_count,
            exports,
            opens_count,
            opens,
            uses_count,
            uses_index,
            provides_count,
            provides,
        } => SpecAttribute::Module {
            module_name_index,
            module_flags,
            module_version_index,
            requires_count,
            module_requires: module_requires.deep_view(),
            exports_count,
            exports: exports.deep_view(),
            opens_count,
            opens: opens.deep_view(),
            uses_count,
            uses_index: uses_index.deep_view(),
            provides_count,
            provides: provides.deep_view(),
        },
        Attribute::ModulePackages { package_count, package_index } => SpecAttribute::ModulePackages {
            package_count,
            package_index: package_index.deep_view(),
        },
        Attribute::ModuleMainClass { main_class_index } => SpecAttribute::ModuleMainClass { main_class_index },
        Attribute::NestHost { host_class_index } => SpecAttribute::NestHost { host_class_index },
        Attribute::NestMembers { number_of_classes, classes } => SpecAttribute::NestMembers {
            number_of_classes,
            classes: classes.deep_view(),
        },
        Attribute::Record { components_count, components } => SpecAttribute::Record {
            components_count,
            components: record_components_view(components@),
        },
        Attribute::PermittedSubclasses { number_of_classes, classes } => SpecAttribute::PermittedSubclasses {
            number_of_classes,
            classes: classes.deep_view(),
        },
    }
}

impl DeepView for Attribute {
    type V = SpecAttribute;

    open spec fn deep_view(&self) -> SpecAttribute {
        attribute_view(*self)
    }
}

// {   u2 inner_class_info_index; // CONSTANT_Class_info
//     u2 outer_class_info_index; // CONSTANT_Class_info
//     u2 inner_name_index; // CONSTANT_Utf8_info
//     u2 inner_class_access_flags; }
#[derive(Clone, Copy, Debug, PartialEq, Eq)]
pub struct InnerClassInfo {
    pub inner_class_info_index: u16,
    pub outer_class_info_index: u16,
    pub inner_name_index: u16,
    pub inner_class_access_flags: u16,
}

// {   u2 start_pc; u2 line_number; }
#[derive(Clone, Copy, Debug, PartialEq, Eq)]
pub struct LineNumberTableInfo {
    pub start_pc: u16,
    pub line_number: u16,
}

// {   u2 start_pc; u2 length; u2 name_index; u2 descriptor_index; u2 index; }
#[derive(Clone, Copy, Debug, PartialEq, Eq)]
pub struct LocalVariableTableInfo {
    pub start_pc: u16,
    pub length: u16,
    pub name_index: u16,
    pub descriptor_index: u16,
    /// A local of type double or long takes both `index` and `index + 1`.
    pub index: u16,
}

// {   u2 start_pc; u2 length; u2 name_index; u2 signature_index; u2 index; }
#[derive(Clone, Copy, Debug, PartialEq, Eq)]
pub struct LocalVariableTypeTableInfo {
    pub start_pc: u16,
    pub length: u16,
    pub name_index: u16,
    pub signature_index: u16,
    /// A local of type double or long takes both `index` and `index + 1`.
    pub index: u16,
}

// union verification_type_info (JVMS 4.7.4); `tag` is the item tag of [crate::jvms::frame::Frame].
#[derive(Clone, Copy, Debug, PartialEq, Eq)]
pub enum VerificationTypeInfo {
    Top { tag: u8 },
    Integer { tag: u8 },
    Float { tag: u8 },
    Null { tag: u8 },
    UninitializedThis { tag: u8 },
    Object { tag: u8, cpool_index: u16 },
    Uninitialized { tag: u8, offset: u16 },
    Long { tag: u8 },
    Double { tag: u8 },
}

// union stack_map_frame {
//     same_frame; /* 0-63 */
//     same_locals_1_stack_item_frame; /* 64-127 */
//     same_locals_1_stack_item_frame_extended; /* 247 */
//     chop_frame; /* 248-250 */
//     same_frame_extended; /* 251 */
//     append_frame; /* 252-254 */
//     full_frame; /* 255 */
// }
#[derive(Clone, Debug, PartialEq, Eq)]
pub enum StackMapFrame {
    SameFrame { frame_type: u8 },
    SameFrameExtended { frame_type: u8, offset_delta: u16 },
    SameLocals1StackItemFrame { frame_type: u8, verification_type_info: VerificationTypeInfo },
    SameLocals1StackItemFrameExtended {
        frame_type: u8,
        offset_delta: u16,
        verification_type_info: VerificationTypeInfo,
    },
    ChopFrame { frame_type: u8, offset_delta: u16 },
    AppendFrame { frame_type: u8, offset_delta: u16, locals: Vec<VerificationTypeInfo> },
    FullFrame {
        frame_type: u8,
        offset_delta: u16,
        number_of_locals: u16,
        locals: Vec<VerificationTypeInfo>,
        number_of_stack_items: u16,
        stack: Vec<VerificationTypeInfo>,
    },
}

pub enum SpecStackMapFrame {
    SameFrame { frame_type: u8 },
    SameFrameExtended { frame_type: u8, offset_delta: u16 },
    SameLocals1StackItemFrame { frame_type: u8, verification_type_info: VerificationTypeInfo },
    SameLocals1StackItemFrameExtended {
        frame_type: u8,
        offset_delta: u16,
        verification_type_info: VerificationTypeInfo,
    },
    ChopFrame { frame_type: u8, offset_delta: u16 },
    AppendFrame { frame_type: u8, offset_delta: u16, locals: Seq<VerificationTypeInfo> },
    FullFrame {
        frame_type: u8,
        offset_delta: u16,
        number_of_locals: u16,
        locals: Seq<VerificationTypeInfo>,
        number_of_stack_items: u16,
        stack: Seq<VerificationTypeInfo>,
    },
}

impl DeepView for StackMapFrame {
    type V = SpecStackMapFrame;

    open spec fn deep_view(&self) -> SpecStackMapFrame {
        match *self {
            StackMapFrame::SameFrame { frame_type } => SpecStackMapFrame::SameFrame { frame_type },
            StackMapFrame::SameFrameExtended { frame_type, offset_delta } =>
                SpecStackMapFrame::SameFrameExtended { frame_type, offset_delta },
            StackMapFrame::SameLocals1StackItemFrame { frame_type, verification_type_info } =>
                SpecStackMapFrame::SameLocals1StackItemFrame { frame_type, verification_type_info },
            StackMapFrame::SameLocals1StackItemFrameExtended {
                frame_type,
                offset_delta,
                verification_type_info,
            } => SpecStackMapFrame::SameLocals1StackItemFrameExtended {
                frame_type,
                offset_delta,
                verification_type_info,
            },
            StackMapFrame::ChopFrame { frame_type, offset_delta } =>
                SpecStackMapFrame::ChopFrame { frame_type, offset_delta },
            StackMapFrame::AppendFrame { frame_type, offset_delta, locals } =>
                SpecStackMapFrame::AppendFrame { frame_type, offset_delta, locals: locals.deep_view() },
            StackMapFrame::FullFrame {
                frame_type,
                offset_delta,
                number_of_locals,
                locals,
                number_of_stack_items,
                stack,
            } => SpecStackMapFrame::FullFrame {
                frame_type,
                offset_delta,
                number_of_locals,
                locals: locals.deep_view(),
                number_of_stack_items,
                stack: stack.deep_view(),
            },
        }
    }
}

// ExceptionTable { u2 start_pc; u2 end_pc; u2 handler_pc; u2 catch_type; }
#[derive(Clone, Copy, Debug, PartialEq, Eq)]
pub struct ExceptionTable {
    pub start_pc: u16,
    pub end_pc: u16,
    pub handler_pc: u16,
    pub catch_type: u16,
}

// {   u2 bootstrap_method_ref; // CONSTANT_MethodHandle_info
//     u2 num_bootstrap_arguments;
//     u2 bootstrap_arguments[num_bootstrap_arguments]; }
#[derive(Clone, Debug, PartialEq, Eq)]
pub struct BootstrapMethod {
    pub bootstrap_method_ref: u16,
    pub num_bootstrap_arguments: u16,
    pub bootstrap_arguments: Vec<u16>,
}

pub struct SpecBootstrapMethod {
    pub bootstrap_method_ref: u16,
    pub num_bootstrap_arguments: u16,
    pub bootstrap_arguments: Seq<u16>,
}

impl DeepView for BootstrapMethod {
    type V = SpecBootstrapMethod;

    open spec fn deep_view(&self) -> SpecBootstrapMethod {
        SpecBootstrapMethod {
            bootstrap_method_ref: self.bootstrap_method_ref,
            num_bootstrap_arguments: self.num_bootstrap_arguments,
            bootstrap_arguments: self.bootstrap_arguments.deep_view(),
        }
    }
}

// {   u2 name_index; u2 access_flags; }
#[derive(Clone, Copy, Debug, PartialEq, Eq)]
pub struct MethodParameter {
    pub name_index: u16,
    pub access_flags: u16,
}

// record_component_info {
//     u2             name_index;
//     u2             descriptor_index;
//     u2             attributes_count;
//     attribute_info attributes[attributes_count];
// }
#[derive(Debug, PartialEq, Eq)]
pub struct RecordComponentInfo {
    pub name_index: u16,
    pub descriptor_index: u16,
    pub attributes_count: u16,
    pub attributes: Vec<AttributeInfo>,
}

pub struct SpecRecordComponentInfo {
    pub name_index: u16,
    pub descriptor_index: u16,
    pub attributes_count: u16,
    pub attributes: Seq<SpecAttributeInfo>,
}

impl DeepView for RecordComponentInfo {
    type V = SpecRecordComponentInfo;

    open spec fn deep_view(&self) -> SpecRecordComponentInfo {
        record_component_view(*self)
    }
}

} // verus!
