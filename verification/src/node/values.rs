//! Values of the node view, resolved from the constant pool.

use crate::node::element::LabelNode;
use vstd::prelude::*;

verus! {

/// A constant-pool entry with the names it points at resolved. A `float` or `double` is
/// held as the bits of its IEEE 754 form.
#[derive(Debug, Clone, PartialEq, Eq)]
pub enum ConstValue {
    Invalid,
    Class(String),
    Member { class: String, name: String, desc: String },
    String(String),
    Integer(i32),
    Float(u32),
    Long(i64),
    Double(u64),
    NameAndType { name: String, desc: String },
    MethodHandle { reference_kind: u8, reference_index: u16 },
    MethodType(String),
    Dynamic { bootstrap_method_attr_index: u16, name: String, desc: String },
    Module(String),
    Package(String),
}

/// The mathematical value of a [ConstValue].
pub enum SpecConstValue {
    Invalid,
    Class(Seq<char>),
    Member { class: Seq<char>, name: Seq<char>, desc: Seq<char> },
    String(Seq<char>),
    Integer(i32),
    Float(u32),
    Long(i64),
    Double(u64),
    NameAndType { name: Seq<char>, desc: Seq<char> },
    MethodHandle { reference_kind: u8, reference_index: u16 },
    MethodType(Seq<char>),
    Dynamic { bootstrap_method_attr_index: u16, name: Seq<char>, desc: Seq<char> },
    Module(Seq<char>),
    Package(Seq<char>),
}

impl DeepView for ConstValue {
    type V = SpecConstValue;

    open spec fn deep_view(&self) -> SpecConstValue {
        match self {
            ConstValue::Invalid => SpecConstValue::Invalid,
            ConstValue::Class(s) => SpecConstValue::Class(s@),
            ConstValue::Member { class, name, desc } => SpecConstValue::Member {
                class: class@,
                name: name@,
                desc: desc@,
            },
            ConstValue::String(s) => SpecConstValue::String(s@),
            ConstValue::Integer(v) => SpecConstValue::Integer(*v),
            ConstValue::Float(v) => SpecConstValue::Float(*v),
            ConstValue::Long(v) => SpecConstValue::Long(*v),
            ConstValue::Double(v) => SpecConstValue::Double(*v),
            ConstValue::NameAndType { name, desc } => SpecConstValue::NameAndType { name: name@, desc: desc@ },
            ConstValue::MethodHandle { reference_kind, reference_index } => SpecConstValue::MethodHandle {
                reference_kind: *reference_kind,
                reference_index: *reference_index,
            },
            ConstValue::MethodType(s) => SpecConstValue::MethodType(s@),
            ConstValue::Dynamic { bootstrap_method_attr_index, name, desc } => SpecConstValue::Dynamic {
                bootstrap_method_attr_index: *bootstrap_method_attr_index,
                name: name@,
                desc: desc@,
            },
            ConstValue::Module(s) => SpecConstValue::Module(s@),
            ConstValue::Package(s) => SpecConstValue::Package(s@),
        }
    }
}

impl ConstValue {
    /// A copy of the value.
    pub fn copy_value(&self) -> (r: ConstValue)
        ensures
            r.deep_view() == self.deep_view(),
    {
        match self {
            ConstValue::Invalid => ConstValue::Invalid,
            ConstValue::Class(s) => ConstValue::Class(s.clone()),
            ConstValue::Member { class, name, desc } => ConstValue::Member {
                class: class.clone(),
                name: name.clone(),
                desc: desc.clone(),
            },
            ConstValue::String(s) => ConstValue::String(s.clone()),
            ConstValue::Integer(v) => ConstValue::Integer(*v),
            ConstValue::Float(v) => ConstValue::Float(*v),
            ConstValue::Long(v) => ConstValue::Long(*v),
            ConstValue::Double(v) => ConstValue::Double(*v),
            ConstValue::NameAndType { name, desc } => ConstValue::NameAndType { name: name.clone(), desc: desc.clone() },
            ConstValue::MethodHandle { reference_kind, reference_index } => ConstValue::MethodHandle {
                reference_kind: *reference_kind,
                reference_index: *reference_index,
            },
            ConstValue::MethodType(s) => ConstValue::MethodType(s.clone()),
            ConstValue::Dynamic { bootstrap_method_attr_index, name, desc } => ConstValue::Dynamic {
                bootstrap_method_attr_index: *bootstrap_method_attr_index,
                name: name.clone(),
                desc: desc.clone(),
            },
            ConstValue::Module(s) => ConstValue::Module(s.clone()),
            ConstValue::Package(s) => ConstValue::Package(s.clone()),
        }
    }
}

/// A frame of a StackMapTable in the node view, with its types resolved.
#[derive(Clone, Debug, PartialEq, Eq)]
pub enum FrameAttributeValue {
    SameFrame { offset_delta: u8 },
    SameFrameExtended { offset_delta: u16 },
    SameLocals1StackItemFrame { offset_delta: u8, stack: FrameValue },
    SameLocals1StackItemFrameExtended { offset_delta: u16, stack: FrameValue },
    ChopFrame { chop_count: u8, offset_delta: u16 },
    AppendFrame { offset_delta: u16, append_locals: Vec<FrameValue> },
    FullFrame { offset_delta: u16, locals: Vec<FrameValue>, stack: Vec<FrameValue> },
}

/// The type of a local variable or stack slot in a frame.
#[derive(Clone, Debug, PartialEq, Eq)]
pub enum FrameValue {
    Top,
    Integer,
    Float,
    Long,
    Double,
    Null,
    UninitializedThis,
    Object(String),
    Uninitialized(u16),
}

/// A method handle with its member resolved.
#[derive(Clone, Debug, PartialEq, Eq)]
pub struct Handle {
    pub reference_kind: u8,
    pub owner: String,
    pub name: String,
    pub desc: String,
}

/// A local variable: where its scope starts, how long it is, its name, descriptor and slot.
#[derive(Clone, Debug, PartialEq, Eq)]
pub struct LocalVariableInfo {
    pub start: LabelNode,
    pub length: u16,
    pub name: String,
    pub desc: String,
    pub index: u16,
}

/// A local variable with a generic signature.
#[derive(Clone, Debug, PartialEq, Eq)]
pub struct LocalVariableTypeInfo {
    pub start: LabelNode,
    pub length: u16,
    pub name: String,
    pub signature: String,
    pub index: u16,
}

/// A Module attribute with its names resolved.
#[derive(Clone, Debug, PartialEq, Eq)]
pub struct ModuleAttrValue {
    pub name: String,
    pub access: u16,
    pub version: Option<String>,
    pub requires: Vec<ModuleRequireValue>,
    pub exports: Vec<ModuleExportValue>,
    pub opens: Vec<ModuleOpenValue>,
    pub uses: Vec<String>,
    pub provides: Vec<ModuleProvidesValue>,
}

/// A `requires` entry of a Module attribute.
#[derive(Clone, Debug, PartialEq, Eq)]
pub struct ModuleRequireValue {
    pub module: String,
    pub access: u16,
    pub version: Option<String>,
}

/// An `exports` entry of a Module attribute.
#[derive(Clone, Debug, PartialEq, Eq)]
pub struct ModuleExportValue {
    pub package: String,
    pub access: u16,
    pub modules: Vec<String>,
}

/// An `opens` entry of a Module attribute.
#[derive(Clone, Debug, PartialEq, Eq)]
pub struct ModuleOpenValue {
    pub package: String,
    pub access: u16,
    pub modules: Vec<String>,
}

/// A `provides` entry of a Module attribute.
#[derive(Clone, Debug, PartialEq, Eq)]
pub struct ModuleProvidesValue {
    pub service: String,
    pub providers: Vec<String>,
}

} // verus!
