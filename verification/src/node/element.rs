//! Parts of the node view of a class: the shapes that its members, inner classes and
//! module are read into.

use crate::jvms::attr::annotation::{
    target_info_view, SpecTypeAnnotationTargetInfo, SpecTypeAnnotationTargetPath, TypeAnnotationTargetInfo,
    TypeAnnotationTargetPath,
};
use crate::node::values::{ConstValue, SpecConstValue};
use vstd::prelude::*;

verus! {

/// An inner class of a class (JVMS 4.7.6): its internal name, the class it is a member
/// of (`None` when it is not a member), its simple name (`None` when it is anonymous) and
/// its access flags as declared.
#[derive(Clone, Debug, PartialEq, Eq)]
pub struct InnerClassNode {
    pub name: String,
    pub outer_name: Option<String>,
    pub inner_name: Option<String>,
    pub access: u16,
}

/// The mathematical value of an [InnerClassNode].
pub struct SpecInnerClassNode {
    pub name: Seq<char>,
    pub outer_name: Option<Seq<char>>,
    pub inner_name: Option<Seq<char>>,
    pub access: u16,
}

impl DeepView for InnerClassNode {
    type V = SpecInnerClassNode;

    open spec fn deep_view(&self) -> SpecInnerClassNode {
        SpecInnerClassNode {
            name: self.name@,
            outer_name: opt_view(self.outer_name),
            inner_name: opt_view(self.inner_name),
            access: self.access,
        }
    }
}

/// An attribute that the node view does not read into a field of its own: its name, and
/// its position in the attribute table of the class or field it belongs to.
#[derive(Clone, Debug, PartialEq, Eq)]
pub struct UnknownAttribute {
    pub name: String,
    pub index: usize,
}

/// The mathematical value of an [UnknownAttribute].
pub struct SpecUnknownAttribute {
    pub name: Seq<char>,
    pub index: int,
}

impl DeepView for UnknownAttribute {
    type V = SpecUnknownAttribute;

    open spec fn deep_view(&self) -> SpecUnknownAttribute {
        SpecUnknownAttribute { name: self.name@, index: self.index as int }
    }
}

/// A parameter of a method (JVMS 4.7.24): its name (`None` where it has none) and its
/// access flags.
#[derive(Clone, Debug, PartialEq, Eq)]
pub struct ParameterNode {
    pub name: Option<String>,
    pub access: u32,
}

/// The mathematical value of a [ParameterNode].
pub struct SpecParameterNode {
    pub name: Option<Seq<char>>,
    pub access: u32,
}

impl DeepView for ParameterNode {
    type V = SpecParameterNode;

    open spec fn deep_view(&self) -> SpecParameterNode {
        SpecParameterNode { name: opt_view(self.name), access: self.access }
    }
}

/// The module a class declares (JVMS 4.7.25): its name, flags and version, the main class
/// and packages that its other attributes name, and what it requires, exports, opens,
/// uses and provides.
#[derive(Clone, Debug, PartialEq, Eq)]
pub struct ModuleNode {
    pub name: String,
    pub access: u16,
    pub version: Option<String>,
    pub main_class: Option<String>,
    pub packages: Vec<String>,
    pub requires: Vec<ModuleRequireNode>,
    pub exports: Vec<ModuleExportNode>,
    pub opens: Vec<ModuleOpenNode>,
    pub uses: Vec<String>,
    pub provides: Vec<ModuleProvides>,
}

/// The mathematical value of a [ModuleNode].
pub struct SpecModuleNode {
    pub name: Seq<char>,
    pub access: u16,
    pub version: Option<Seq<char>>,
    pub main_class: Option<Seq<char>>,
    pub packages: Seq<Seq<char>>,
    pub requires: Seq<SpecModuleRequireNode>,
    pub exports: Seq<SpecModuleExportNode>,
    pub opens: Seq<SpecModuleExportNode>,
    pub uses: Seq<Seq<char>>,
    pub provides: Seq<SpecModuleProvidesNode>,
}

impl DeepView for ModuleNode {
    type V = SpecModuleNode;

    open spec fn deep_view(&self) -> SpecModuleNode {
        SpecModuleNode {
            name: self.name@,
            access: self.access,
            version: opt_view(self.version),
            main_class: opt_view(self.main_class),
            packages: self.packages@.map_values(|s: String| s@),
            requires: self.requires.deep_view(),
            exports: self.exports.deep_view(),
            opens: self.opens.deep_view(),
            uses: self.uses@.map_values(|s: String| s@),
            provides: self.provides.deep_view(),
        }
    }
}

/// A module that a module requires.
#[derive(Clone, Debug, PartialEq, Eq)]
pub struct ModuleRequireNode {
    pub module: String,
    pub access: u16,
    pub version: Option<String>,
}

/// The mathematical value of a [ModuleRequireNode].
pub struct SpecModuleRequireNode {
    pub module: Seq<char>,
    pub access: u16,
    pub version: Option<Seq<char>>,
}

impl DeepView for ModuleRequireNode {
    type V = SpecModuleRequireNode;

    open spec fn deep_view(&self) -> SpecModuleRequireNode {
        SpecModuleRequireNode { module: self.module@, access: self.access, version: opt_view(self.version) }
    }
}

/// A package that a module exports, to the modules listed or to all.
#[derive(Clone, Debug, PartialEq, Eq)]
pub struct ModuleExportNode {
    pub package: String,
    pub access: u16,
    pub modules: Vec<String>,
}

/// The mathematical value of a [ModuleExportNode] or a [ModuleOpenNode].
pub struct SpecModuleExportNode {
    pub package: Seq<char>,
    pub access: u16,
    pub modules: Seq<Seq<char>>,
}

impl DeepView for ModuleExportNode {
    type V = SpecModuleExportNode;

    open spec fn deep_view(&self) -> SpecModuleExportNode {
        SpecModuleExportNode {
            package: self.package@,
            access: self.access,
            modules: self.modules@.map_values(|s: String| s@),
        }
    }
}

/// A package that a module opens, to the modules listed or to all.
#[derive(Clone, Debug, PartialEq, Eq)]
pub struct ModuleOpenNode {
    pub package: String,
    pub access: u16,
    pub modules: Vec<String>,
}

impl DeepView for ModuleOpenNode {
    type V = SpecModuleExportNode;

    open spec fn deep_view(&self) -> SpecModuleExportNode {
        SpecModuleExportNode {
            package: self.package@,
            access: self.access,
            modules: self.modules@.map_values(|s: String| s@),
        }
    }
}

/// A service that a module provides, and its implementations.
#[derive(Clone, Debug, PartialEq, Eq)]
pub struct ModuleProvides {
    pub service: String,
    pub providers: Vec<String>,
}

/// The mathematical value of a [ModuleProvides].
pub struct SpecModuleProvidesNode {
    pub service: Seq<char>,
    pub providers: Seq<Seq<char>>,
}

impl DeepView for ModuleProvides {
    type V = SpecModuleProvidesNode;

    open spec fn deep_view(&self) -> SpecModuleProvidesNode {
        SpecModuleProvidesNode { service: self.service@, providers: self.providers@.map_values(|s: String| s@) }
    }
}

/// A position in the code of a method.
#[derive(Clone, Debug, PartialEq, Eq)]
pub struct LabelNode(pub u32);

/// Reads class files into the node view.
pub struct NodeReader {}

/// Options of reading a class, and what the reader keeps of its constant pool.
pub struct ClassReaderOption<'a> {
    pub header: u32,
    pub constant_pool_offsets: &'a Vec<u32>,
    pub constant_utf8_values: Vec<String>,
    pub max_string_length: u32,
}

impl<'a> ClassReaderOption<'a> {
    /// Skip the Code attributes.
    pub const SKIP_CODE: u16 = 1;
    /// Skip the SourceFile, SourceDebugExtension, LocalVariableTable,
    /// LocalVariableTypeTable, LineNumberTable and MethodParameters attributes.
    pub const SKIP_DEBUG: u16 = 2;
    /// Skip the StackMap and StackMapTable attributes.
    pub const SKIP_FRAMES: u16 = 4;
    /// Expand the stack map frames.
    pub const EXPAND_FRAMES: u16 = 8;
    /// Expand the reader's own instructions into standard ones.
    pub const EXPAND_ASM_INSNS: u16 = 256;
    /// The largest array the reader allocates.
    pub const MAX_BUFFER_SIZE: u32 = 1048576;
    /// The size of the chunks an input stream is read in.
    pub const INPUT_STREAM_DATA_CHUNK_SIZE: u16 = 4096;
}

} // verus!

verus! {

/// The value a field starts with, from its `ConstantValue` attribute. A `float` or
/// `double` is held as the bits of its IEEE 754 form.
#[derive(Clone, Debug, PartialEq, Eq)]
pub enum FieldInitialValue {
    Integer(i32),
    Float(u32),
    Long(i64),
    Double(u64),
    String(String),
}

/// The mathematical value of a [FieldInitialValue].
pub enum SpecFieldInitialValue {
    Integer(i32),
    Float(u32),
    Long(i64),
    Double(u64),
    String(Seq<char>),
}

impl DeepView for FieldInitialValue {
    type V = SpecFieldInitialValue;

    open spec fn deep_view(&self) -> SpecFieldInitialValue {
        match self {
            FieldInitialValue::Integer(v) => SpecFieldInitialValue::Integer(*v),
            FieldInitialValue::Float(v) => SpecFieldInitialValue::Float(*v),
            FieldInitialValue::Long(v) => SpecFieldInitialValue::Long(*v),
            FieldInitialValue::Double(v) => SpecFieldInitialValue::Double(*v),
            FieldInitialValue::String(s) => SpecFieldInitialValue::String(s@),
        }
    }
}

/// An annotation in the node view: whether it is visible at run time, the descriptor of
/// its type, and its element names with their values.
#[derive(Debug, PartialEq, Eq)]
pub struct AnnotationNode {
    pub visible: bool,
    pub desc: String,
    pub values: Vec<(String, AnnotationValue)>,
}

/// The value of an element of an annotation: a constant, an enum constant (the
/// descriptor of its type and its name), a class (its return descriptor), a nested
/// annotation, or an array of values.
#[derive(Debug, PartialEq, Eq)]
pub enum AnnotationValue {
    Const(ConstValue),
    Enum(String, String),
    Class(String),
    Annotation(AnnotationNode),
    Array(Vec<AnnotationValue>),
}

/// The mathematical value of an [AnnotationNode].
pub struct SpecAnnotationNode {
    pub visible: bool,
    pub desc: Seq<char>,
    pub values: Seq<(Seq<char>, SpecAnnotationValue)>,
}

/// The mathematical value of an [AnnotationValue].
pub enum SpecAnnotationValue {
    Const(SpecConstValue),
    Enum(Seq<char>, Seq<char>),
    Class(Seq<char>),
    Annotation(SpecAnnotationNode),
    Array(Seq<SpecAnnotationValue>),
}

/// The mathematical value of an [AnnotationNode].
pub open spec fn annotation_node_view(a: AnnotationNode) -> SpecAnnotationNode
    decreases a,
{
    SpecAnnotationNode { visible: a.visible, desc: a.desc@, values: pairs_view(a.values@) }
}

/// The mathematical values of the element-value pairs `v`.
pub open spec fn pairs_view(v: Seq<(String, AnnotationValue)>) -> Seq<(Seq<char>, SpecAnnotationValue)>
    decreases v,
{
    Seq::new(
        v.len(),
        |i: int|
            if 0 <= i < v.len() {
                pair_view(v[i])
            } else {
                (Seq::empty(), SpecAnnotationValue::Class(Seq::empty()))
            },
    )
}

/// The mathematical value of an element-value pair.
pub open spec fn pair_view(p: (String, AnnotationValue)) -> (Seq<char>, SpecAnnotationValue)
    decreases p,
{
    (p.0@, annotation_value_view(p.1))
}

/// The mathematical value of an [AnnotationValue].
pub open spec fn annotation_value_view(v: AnnotationValue) -> SpecAnnotationValue
    decreases v,
{
    match v {
        AnnotationValue::Const(c) => SpecAnnotationValue::Const(c.deep_view()),
        AnnotationValue::Enum(t, n) => SpecAnnotationValue::Enum(t@, n@),
        AnnotationValue::Class(c) => SpecAnnotationValue::Class(c@),
        AnnotationValue::Annotation(a) => SpecAnnotationValue::Annotation(annotation_node_view(a)),
        AnnotationValue::Array(vs) => SpecAnnotationValue::Array(annotation_values_view(vs@)),
    }
}

/// The mathematical values of the values `v`.
pub open spec fn annotation_values_view(v: Seq<AnnotationValue>) -> Seq<SpecAnnotationValue>
    decreases v,
{
    Seq::new(
        v.len(),
        |i: int|
            if 0 <= i < v.len() {
                annotation_value_view(v[i])
            } else {
                SpecAnnotationValue::Class(Seq::empty())
            },
    )
}

impl DeepView for AnnotationNode {
    type V = SpecAnnotationNode;

    open spec fn deep_view(&self) -> SpecAnnotationNode {
        annotation_node_view(*self)
    }
}

/// The mathematical values of the annotations `v`.
pub open spec fn annotation_nodes_view(v: Seq<AnnotationNode>) -> Seq<SpecAnnotationNode> {
    v.map_values(|a: AnnotationNode| annotation_node_view(a))
}

/// A type annotation in the node view: the kind of its target and where on that type it
/// stands, and the annotation itself.
#[derive(Debug, PartialEq, Eq)]
pub struct TypeAnnotationNode {
    pub target_type: u8,
    pub target_info: TypeAnnotationTargetInfo,
    pub target_path: TypeAnnotationTargetPath,
    pub annotation_node: AnnotationNode,
}

/// The mathematical value of a [TypeAnnotationNode].
pub struct SpecTypeAnnotationNode {
    pub target_type: u8,
    pub target_info: SpecTypeAnnotationTargetInfo,
    pub target_path: SpecTypeAnnotationTargetPath,
    pub annotation_node: SpecAnnotationNode,
}

/// The mathematical value of a [TypeAnnotationNode].
pub open spec fn type_annotation_node_view(t: TypeAnnotationNode) -> SpecTypeAnnotationNode {
    SpecTypeAnnotationNode {
        target_type: t.target_type,
        target_info: target_info_view(t.target_info),
        target_path: SpecTypeAnnotationTargetPath { path_length: t.target_path.path_length, path: t.target_path.path@ },
        annotation_node: annotation_node_view(t.annotation_node),
    }
}

/// The mathematical values of the type annotations `v`.
pub open spec fn type_annotation_nodes_view(v: Seq<TypeAnnotationNode>) -> Seq<SpecTypeAnnotationNode> {
    v.map_values(|t: TypeAnnotationNode| type_annotation_node_view(t))
}

/// A component of a record class (JVMS 4.7.30): its name, descriptor and signature, its
/// annotations and type annotations, and the attributes it has beside those.
#[derive(Debug, PartialEq, Eq)]
pub struct RecordComponentNode {
    pub name: String,
    pub desc: String,
    pub signature: Option<String>,
    pub annotations: Vec<AnnotationNode>,
    pub type_annotations: Vec<TypeAnnotationNode>,
    pub attrs: Vec<UnknownAttribute>,
}

/// The mathematical value of a [RecordComponentNode].
pub struct SpecRecordComponentNode {
    pub name: Seq<char>,
    pub desc: Seq<char>,
    pub signature: Option<Seq<char>>,
    pub annotations: Seq<SpecAnnotationNode>,
    pub type_annotations: Seq<SpecTypeAnnotationNode>,
    pub attrs: Seq<SpecUnknownAttribute>,
}

impl DeepView for RecordComponentNode {
    type V = SpecRecordComponentNode;

    open spec fn deep_view(&self) -> SpecRecordComponentNode {
        SpecRecordComponentNode {
            name: self.name@,
            desc: self.desc@,
            signature: opt_view(self.signature),
            annotations: annotation_nodes_view(self.annotations@),
            type_annotations: type_annotation_nodes_view(self.type_annotations@),
            attrs: self.attrs.deep_view(),
        }
    }
}

/// A field of a class in the node view: its access flags, name and descriptor, the
/// generic signature, initial value, annotations and type annotations its attributes give,
/// and its other attributes.
#[derive(Debug, PartialEq, Eq)]
pub struct FieldNode {
    pub access: u16,
    pub name: String,
    pub desc: String,
    pub signature: Option<String>,
    pub value: Option<FieldInitialValue>,
    pub annotations: Vec<AnnotationNode>,
    pub type_annotations: Vec<TypeAnnotationNode>,
    pub attrs: Vec<UnknownAttribute>,
}

/// The mathematical value of a [FieldNode].
pub struct SpecFieldNode {
    pub access: u16,
    pub name: Seq<char>,
    pub desc: Seq<char>,
    pub signature: Option<Seq<char>>,
    pub value: Option<SpecFieldInitialValue>,
    pub annotations: Seq<SpecAnnotationNode>,
    pub type_annotations: Seq<SpecTypeAnnotationNode>,
    pub attrs: Seq<SpecUnknownAttribute>,
}

/// The text of an optional string.
pub open spec fn opt_view(o: Option<String>) -> Option<Seq<char>> {
    match o {
        Some(s) => Some(s@),
        None => None,
    }
}

impl DeepView for FieldNode {
    type V = SpecFieldNode;

    open spec fn deep_view(&self) -> SpecFieldNode {
        SpecFieldNode {
            access: self.access,
            name: self.name@,
            desc: self.desc@,
            signature: opt_view(self.signature),
            value: match self.value {
                Some(v) => Some(v.deep_view()),
                None => None,
            },
            annotations: annotation_nodes_view(self.annotations@),
            type_annotations: type_annotation_nodes_view(self.type_annotations@),
            attrs: self.attrs.deep_view(),
        }
    }
}

/// A method of a class in the node view: its access flags, name and descriptor, the
/// signature, exceptions, parameters, annotations and type annotations its attributes
/// give, and its other attributes (its code among them).
#[derive(Debug, PartialEq, Eq)]
pub struct MethodNode {
    pub access: u16,
    pub name: String,
    pub desc: String,
    pub signature: Option<String>,
    pub exceptions: Vec<String>,
    pub parameters: Vec<ParameterNode>,
    pub annotations: Vec<AnnotationNode>,
    pub type_annotations: Vec<TypeAnnotationNode>,
    pub attrs: Vec<UnknownAttribute>,
}

/// The mathematical value of a [MethodNode].
pub struct SpecMethodNode {
    pub access: u16,
    pub name: Seq<char>,
    pub desc: Seq<char>,
    pub signature: Option<Seq<char>>,
    pub exceptions: Seq<Seq<char>>,
    pub parameters: Seq<SpecParameterNode>,
    pub annotations: Seq<SpecAnnotationNode>,
    pub type_annotations: Seq<SpecTypeAnnotationNode>,
    pub attrs: Seq<SpecUnknownAttribute>,
}

impl DeepView for MethodNode {
    type V = SpecMethodNode;

    open spec fn deep_view(&self) -> SpecMethodNode {
        SpecMethodNode {
            access: self.access,
            name: self.name@,
            desc: self.desc@,
            signature: opt_view(self.signature),
            exceptions: self.exceptions@.map_values(|s: String| s@),
            parameters: self.parameters.deep_view(),
            annotations: annotation_nodes_view(self.annotations@),
            type_annotations: type_annotation_nodes_view(self.type_annotations@),
            attrs: self.attrs.deep_view(),
        }
    }
}

/// A class in the node view: its version and access flags, its internal name, the
/// internal name of its super class (`None` only for `java/lang/Object`) and of the
/// interfaces it implements, what its attributes name (signature, source file and debug
/// extension, module, enclosing class and method, annotations and type annotations, inner classes, nest host and members,
/// permitted subclasses, record components), the attributes it has beside those, and its fields and methods.
#[derive(Debug, PartialEq, Eq)]
pub struct ClassNode {
    pub minor_version: u16,
    pub major_version: u16,
    pub access: u16,
    pub name: String,
    pub signature: Option<String>,
    pub super_name: Option<String>,
    pub interfaces: Vec<String>,
    pub source_file: Option<String>,
    pub source_debug: Option<String>,
    pub module: Option<ModuleNode>,
    pub outer_class: Option<String>,
    pub outer_method: Option<String>,
    pub outer_method_desc: Option<String>,
    pub annotations: Vec<AnnotationNode>,
    pub type_annotations: Vec<TypeAnnotationNode>,
    pub inner_classes: Vec<InnerClassNode>,
    pub nest_host_class: Option<String>,
    pub nest_members: Vec<String>,
    pub permitted_subclasses: Vec<String>,
    pub record_components: Vec<RecordComponentNode>,
    pub attrs: Vec<UnknownAttribute>,
    pub fields: Vec<FieldNode>,
    pub methods: Vec<MethodNode>,
}

/// The mathematical value of a [ClassNode].
pub struct SpecClassNode {
    pub minor_version: u16,
    pub major_version: u16,
    pub access: u16,
    pub name: Seq<char>,
    pub signature: Option<Seq<char>>,
    pub super_name: Option<Seq<char>>,
    pub interfaces: Seq<Seq<char>>,
    pub source_file: Option<Seq<char>>,
    pub source_debug: Option<Seq<char>>,
    pub module: Option<SpecModuleNode>,
    pub outer_class: Option<Seq<char>>,
    pub outer_method: Option<Seq<char>>,
    pub outer_method_desc: Option<Seq<char>>,
    pub annotations: Seq<SpecAnnotationNode>,
    pub type_annotations: Seq<SpecTypeAnnotationNode>,
    pub inner_classes: Seq<SpecInnerClassNode>,
    pub nest_host_class: Option<Seq<char>>,
    pub nest_members: Seq<Seq<char>>,
    pub permitted_subclasses: Seq<Seq<char>>,
    pub record_components: Seq<SpecRecordComponentNode>,
    pub attrs: Seq<SpecUnknownAttribute>,
    pub fields: Seq<SpecFieldNode>,
    pub methods: Seq<SpecMethodNode>,
}

impl DeepView for ClassNode {
    type V = SpecClassNode;

    open spec fn deep_view(&self) -> SpecClassNode {
        SpecClassNode {
            minor_version: self.minor_version,
            major_version: self.major_version,
            access: self.access,
            name: self.name@,
            signature: opt_view(self.signature),
            super_name: opt_view(self.super_name),
            interfaces: self.interfaces@.map_values(|s: String| s@),
            source_file: opt_view(self.source_file),
            source_debug: opt_view(self.source_debug),
            module: match self.module {
                Some(m) => Some(m.deep_view()),
                None => None,
            },
            outer_class: opt_view(self.outer_class),
            outer_method: opt_view(self.outer_method),
            outer_method_desc: opt_view(self.outer_method_desc),
            annotations: annotation_nodes_view(self.annotations@),
            type_annotations: type_annotation_nodes_view(self.type_annotations@),
            inner_classes: self.inner_classes.deep_view(),
            nest_host_class: opt_view(self.nest_host_class),
            nest_members: self.nest_members@.map_values(|s: String| s@),
            permitted_subclasses: self.permitted_subclasses@.map_values(|s: String| s@),
            record_components: self.record_components.deep_view(),
            attrs: self.attrs.deep_view(),
            fields: self.fields.deep_view(),
            methods: self.methods.deep_view(),
        }
    }
}

} // verus!
