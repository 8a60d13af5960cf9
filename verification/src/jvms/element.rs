//! The structures of a class file (JVMS 4.1), as stored.

use crate::jvms::attr::{attribute_info_view, Attribute, SpecAttribute};
use vstd::prelude::*;

verus! {

// ClassFile {
//     u4             magic;
//     u2             minor_version;
//     u2             major_version;
//     u2             constant_pool_count;
//     cp_info        constant_pool[constant_pool_count-1];
//     u2             access_flags;
//     u2             this_class;
//     u2             super_class;
//     u2             interfaces_count;
//     u2             interfaces[interfaces_count];
//     u2             fields_count;
//     field_info     fields[fields_count];
//     u2             methods_count;
//     method_info    methods[methods_count];
//     u2             attributes_count;
//     attribute_info attributes[attributes_count];
// }
/// A class file. `constant_pool[0]` is a placeholder (`tag` 0, [Const::Invalid]) that
/// the file itself does not store, so that pool indices start at 1 as in the JVMS.
#[derive(Debug, PartialEq, Eq)]
pub struct ClassFile {
    pub magic: u32,
    pub minor_version: u16,
    pub major_version: u16,
    pub constant_pool_count: u16,
    pub constant_pool: Vec<CPInfo>,
    pub access_flags: u16,
    pub this_class: u16,
    pub super_class: u16,
    pub interfaces_count: u16,
    pub interfaces: Vec<u16>,
    pub fields_count: u16,
    pub fields: Vec<FieldInfo>,
    pub methods_count: u16,
    pub methods: Vec<MethodInfo>,
    pub attributes_count: u16,
    pub attributes: Vec<AttributeInfo>,
}

/// The mathematical value of a [ClassFile].
pub struct SpecClassFile {
    pub magic: u32,
    pub minor_version: u16,
    pub major_version: u16,
    pub constant_pool_count: u16,
    pub constant_pool: Seq<SpecCPInfo>,
    pub access_flags: u16,
    pub this_class: u16,
    pub super_class: u16,
    pub interfaces_count: u16,
    pub interfaces: Seq<u16>,
    pub fields_count: u16,
    pub fields: Seq<SpecMemberInfo>,
    pub methods_count: u16,
    pub methods: Seq<SpecMemberInfo>,
    pub attributes_count: u16,
    pub attributes: Seq<SpecAttributeInfo>,
}

impl DeepView for ClassFile {
    type V = SpecClassFile;

    open spec fn deep_view(&self) -> SpecClassFile {
        SpecClassFile {
            magic: self.magic,
            minor_version: self.minor_version,
            major_version: self.major_version,
            constant_pool_count: self.constant_pool_count,
            constant_pool: self.constant_pool.deep_view(),
            access_flags: self.access_flags,
            this_class: self.this_class,
            super_class: self.super_class,
            interfaces_count: self.interfaces_count,
            interfaces: self.interfaces.deep_view(),
            fields_count: self.fields_count,
            fields: self.fields.deep_view(),
            methods_count: self.methods_count,
            methods: self.methods.deep_view(),
            attributes_count: self.attributes_count,
            attributes: self.attributes.deep_view(),
        }
    }
}

// cp_info {
//     u1 tag;
//     u1 info[];
// }
#[derive(Clone, Debug, PartialEq, Eq)]
pub struct CPInfo {
    pub tag: u8,
    pub info: Const,
}

pub struct SpecCPInfo {
    pub tag: u8,
    pub info: SpecConst,
}

impl DeepView for CPInfo {
    type V = SpecCPInfo;

    open spec fn deep_view(&self) -> SpecCPInfo {
        SpecCPInfo { tag: self.tag, info: self.info.deep_view() }
    }
}

/// The body of a constant-pool entry (JVMS 4.4).
#[derive(Clone, Debug, PartialEq, Eq)]
pub enum Const {
    // the placeholder at index 0, and what tag 0 reads as
    Invalid,
    // CONSTANT_Class_info { u1 tag; u2 name_index; }
    Class { name_index: u16 },
    // CONSTANT_Fieldref_info { u1 tag; u2 class_index; u2 name_and_type_index; }
    Field { class_index: u16, name_and_type_index: u16 },
    Method { class_index: u16, name_and_type_index: u16 },
    InterfaceMethod { class_index: u16, name_and_type_index: u16 },
    // CONSTANT_String_info { u1 tag; u2 string_index; }
    String { string_index: u16 },
    // CONSTANT_Integer_info { u1 tag; u4 bytes; }, big-endian
    Integer { bytes: u32 },
    // IEEE 754 single format, kept as its bits
    Float { bytes: u32 },
    // CONSTANT_Long_info { u1 tag; u4 high_bytes; u4 low_bytes; }; takes two pool slots
    Long { high_bytes: u32, low_bytes: u32 },
    // IEEE 754 double format, kept as its bits; takes two pool slots
    Double { high_bytes: u32, low_bytes: u32 },
    // CONSTANT_NameAndType_info { u1 tag; u2 name_index; u2 descriptor_index; }
    NameAndType { name_index: u16, descriptor_index: u16 },
    // CONSTANT_Utf8_info { u1 tag; u2 length; u1 bytes[length]; }
    Utf8 { length: u16, bytes: Vec<u8> },
    // CONSTANT_MethodHandle_info { u1 tag; u1 reference_kind; u2 reference_index; }
    MethodHandle { reference_kind: u8, reference_index: u16 },
    // CONSTANT_MethodType_info { u1 tag; u2 descriptor_index; }
    MethodType { descriptor_index: u16 },
    // CONSTANT_Dynamic_info { u1 tag; u2 bootstrap_method_attr_index; u2 name_and_type_index; }
    Dynamic { bootstrap_method_attr_index: u16, name_and_type_index: u16 },
    InvokeDynamic { bootstrap_method_attr_index: u16, name_and_type_index: u16 },
    // CONSTANT_Module_info { u1 tag; u2 name_index; }
    Module { name_index: u16 },
    // CONSTANT_Package_info { u1 tag; u2 name_index; }
    Package { name_index: u16 },
}

pub enum SpecConst {
    Invalid,
    Class { name_index: u16 },
    Field { class_index: u16, name_and_type_index: u16 },
    Method { class_index: u16, name_and_type_index: u16 },
    InterfaceMethod { class_index: u16, name_and_type_index: u16 },
    String { string_index: u16 },
    Integer { bytes: u32 },
    Float { bytes: u32 },
    Long { high_bytes: u32, low_bytes: u32 },
    Double { high_bytes: u32, low_bytes: u32 },
    NameAndType { name_index: u16, descriptor_index: u16 },
    Utf8 { length: u16, bytes: Seq<u8> },
    MethodHandle { reference_kind: u8, reference_index: u16 },
    MethodType { descriptor_index: u16 },
    Dynamic { bootstrap_method_attr_index: u16, name_and_type_index: u16 },
    InvokeDynamic { bootstrap_method_attr_index: u16, name_and_type_index: u16 },
    Module { name_index: u16 },
    Package { name_index: u16 },
}

impl DeepView for Const {
    type V = SpecConst;

    open spec fn deep_view(&self) -> SpecConst {
        match *self {
            Const::Invalid => SpecConst::Invalid,
            Const::Class { name_index } => SpecConst::Class { name_index },
            Const::Field { class_index, name_and_type_index } => SpecConst::Field {
                class_index,
                name_and_type_index,
            },
            Const::Method { class_index, name_and_type_index } => SpecConst::Method {
                class_index,
                name_and_type_index,
            },
            Const::InterfaceMethod { class_index, name_and_type_index } => SpecConst::InterfaceMethod {
                class_index,
                name_and_type_index,
            },
            Const::String { string_index } => SpecConst::String { string_index },
            Const::Integer { bytes } => SpecConst::Integer { bytes },
            Const::Float { bytes } => SpecConst::Float { bytes },
            Const::Long { high_bytes, low_bytes } => SpecConst::Long { high_bytes, low_bytes },
            Const::Double { high_bytes, low_bytes } => SpecConst::Double { high_bytes, low_bytes },
            Const::NameAndType { name_index, descriptor_index } => SpecConst::NameAndType {
                name_index,
                descriptor_index,
            },
            Const::Utf8 { length, bytes } => SpecConst::Utf8 { length, bytes: bytes@ },
            Const::MethodHandle { reference_kind, reference_index } => SpecConst::MethodHandle {
                reference_kind,
                reference_index,
            },
            Const::MethodType { descriptor_index } => SpecConst::MethodType { descriptor_index },
            Const::Dynamic { bootstrap_method_attr_index, name_and_type_index } => SpecConst::Dynamic {
                bootstrap_method_attr_index,
                name_and_type_index,
            },
            Const::InvokeDynamic { bootstrap_method_attr_index, name_and_type_index } =>
                SpecConst::InvokeDynamic { bootstrap_method_attr_index, name_and_type_index },
            Const::Module { name_index } => SpecConst::Module { name_index },
            Const::Package { name_index } => SpecConst::Package { name_index },
        }
    }
}

// field_info {
//     u2             access_flags;
//     u2             name_index; // CONSTANT_Utf8_info
//     u2             descriptor_index; // CONSTANT_Utf8_info
//     u2             attributes_count;
//     attribute_info attributes[attributes_count];
// }
#[derive(Debug, PartialEq, Eq)]
pub struct FieldInfo {
    pub access_flags: u16,
    pub name_index: u16,
    pub descriptor_index: u16,
    pub attributes_count: u16,
    pub attributes: Vec<AttributeInfo>,
}

// method_info: the same layout as field_info
#[derive(Debug, PartialEq, Eq)]
pub struct MethodInfo {
    pub access_flags: u16,
    pub name_index: u16,
    pub descriptor_index: u16,
    pub attributes_count: u16,
    pub attributes: Vec<AttributeInfo>,
}

/// The mathematical value of a [FieldInfo] or a [MethodInfo], which share one layout.
pub struct SpecMemberInfo {
    pub access_flags: u16,
    pub name_index: u16,
    pub descriptor_index: u16,
    pub attributes_count: u16,
    pub attributes: Seq<SpecAttributeInfo>,
}

impl DeepView for FieldInfo {
    type V = SpecMemberInfo;

    open spec fn deep_view(&self) -> SpecMemberInfo {
        SpecMemberInfo {
            access_flags: self.access_flags,
            name_index: self.name_index,
            descriptor_index: self.descriptor_index,
            attributes_count: self.attributes_count,
            attributes: self.attributes.deep_view(),
        }
    }
}

impl DeepView for MethodInfo {
    type V = SpecMemberInfo;

    open spec fn deep_view(&self) -> SpecMemberInfo {
        SpecMemberInfo {
            access_flags: self.access_flags,
            name_index: self.name_index,
            descriptor_index: self.descriptor_index,
            attributes_count: self.attributes_count,
            attributes: self.attributes.deep_view(),
        }
    }
}

// attribute_info {
//     u2 attribute_name_index; // CONSTANT_Utf8_info
//     u4 attribute_length;
//     u1 info[attribute_length];
// }
#[derive(Debug, PartialEq, Eq)]
pub struct AttributeInfo {
    pub attribute_name_index: u16,
    pub attribute_length: u32,
    pub info: Attribute,
}

pub struct SpecAttributeInfo {
    pub attribute_name_index: u16,
    pub attribute_length: u32,
    pub info: SpecAttribute,
}

impl DeepView for AttributeInfo {
    type V = SpecAttributeInfo;

    open spec fn deep_view(&self) -> SpecAttributeInfo {
        attribute_info_view(*self)
    }
}

} // verus!
