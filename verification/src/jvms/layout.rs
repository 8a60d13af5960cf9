//! The byte layout of the fixed-size tables of a class file (JVMS 4.7), stated on the
//! wire bytes: each `u2` field is the big-endian value of its two bytes, in the order the
//! JVMS lists the fields, for reading and for writing alike.

use crate::jvms::attr::module::ModuleRequires;
use crate::jvms::attr::{
    ExceptionTable, InnerClassInfo, LineNumberTableInfo, LocalVariableTableInfo, LocalVariableTypeTableInfo,
    MethodParameter,
};
use crate::jvms::element::{SpecAttributeInfo, SpecClassFile, SpecConst};
use crate::jvms::attr::SpecAttribute;
use crate::jvms::read::attr_body::spec_attribute_body;
use crate::jvms::read::bytes::{lemma_read_vec_len, spec_read_vec, FromReadContext, Parsed};
use crate::jvms::normal_form::{attribute_name, lemma_attribute_names};
use crate::jvms::read::transform::spec_read_code_raw;
use crate::jvms::read::class_reader::spec_read_class_bytes;
use crate::jvms::read::jvms_reader::{
    spec_read_class_tail, spec_read_const, spec_read_cp, spec_read_member, spec_read_raw_attribute,
    spec_read_raw_class_file, lemma_cp_len, spec_read_counted,
};
use crate::jvms::read::transform::Outcome;
use crate::jvms::wire::lemma_u16_bytes;
use crate::jvms::write::bytes::{u16_bytes, FromWriteContext};
use vstd::prelude::*;

verus! {

/// The big-endian value of the two bytes of `s` at `i` and `i + 1`.
pub open spec fn u2_at(s: Seq<u8>, i: int) -> int {
    s[i] as int * 256 + s[i + 1] as int
}

/// The big-endian value of the four bytes of `s` from `i`.
pub open spec fn u4_at(s: Seq<u8>, i: int) -> int {
    s[i] as int * 16777216 + s[i + 1] as int * 65536 + s[i + 2] as int * 256 + s[i + 3] as int
}

/// The two bytes written for a `u2` are its high byte, then its low byte.
pub proof fn lemma_u2_written(v: u16)
    ensures
        u16_bytes(v).len() == 2,
        u2_at(u16_bytes(v), 0) == v,
{
    lemma_u16_bytes(v);
}

/// A `u1`, `u2` or `u4` is read as the big-endian value of its bytes.
pub proof fn lemma_read_numbers(s: Seq<u8>)
    ensures
        s.len() >= 1 ==> <u8 as FromReadContext>::spec_read(s) == Parsed::Done(s[0], 1),
        s.len() >= 2 ==> (<u16 as FromReadContext>::spec_read(s) matches Parsed::Done(v, n) && n == 2 && v == u2_at(s, 0)),
        s.len() >= 4 ==> (<u32 as FromReadContext>::spec_read(s) matches Parsed::Done(v, n) && n == 4 && v == u4_at(s, 0)),
        s.len() < 2 ==> <u16 as FromReadContext>::spec_read(s) is Fail,
        s.len() < 4 ==> <u32 as FromReadContext>::spec_read(s) is Fail,
{
}

/// An entry of a line-number table is four bytes: `start_pc`, then `line_number`.
pub proof fn lemma_line_number_layout(s: Seq<u8>, v: LineNumberTableInfo)
    ensures
        s.len() >= 4 ==> (<LineNumberTableInfo as FromReadContext>::spec_read(s) matches Parsed::Done(e, n) && n == 4
            && e.start_pc == u2_at(s, 0) && e.line_number == u2_at(s, 2)),
        s.len() < 4 ==> <LineNumberTableInfo as FromReadContext>::spec_read(s) is Fail,
        ({
            let b = <LineNumberTableInfo as FromWriteContext>::spec_write(v);
            b.len() == 4 && u2_at(b, 0) == v.start_pc && u2_at(b, 2) == v.line_number
        }),
{
    lemma_u2_written(v.start_pc);
    lemma_u2_written(v.line_number);
}

/// An entry of an exception table is eight bytes: `start_pc`, `end_pc`, `handler_pc`,
/// then `catch_type`.
pub proof fn lemma_exception_table_layout(s: Seq<u8>, v: ExceptionTable)
    ensures
        s.len() >= 8 ==> (<ExceptionTable as FromReadContext>::spec_read(s) matches Parsed::Done(e, n) && n == 8 && e.start_pc
            == u2_at(s, 0) && e.end_pc == u2_at(s, 2) && e.handler_pc == u2_at(s, 4) && e.catch_type == u2_at(s, 6)),
        s.len() < 8 ==> <ExceptionTable as FromReadContext>::spec_read(s) is Fail,
        ({
            let b = <ExceptionTable as FromWriteContext>::spec_write(v);
            &&& b.len() == 8
            &&& u2_at(b, 0) == v.start_pc && u2_at(b, 2) == v.end_pc
            &&& u2_at(b, 4) == v.handler_pc && u2_at(b, 6) == v.catch_type
        }),
{
    lemma_u2_written(v.start_pc);
    lemma_u2_written(v.end_pc);
    lemma_u2_written(v.handler_pc);
    lemma_u2_written(v.catch_type);
}

/// An entry of an inner-classes table is eight bytes: the inner class, the outer class,
/// the simple name, then the access flags.
pub proof fn lemma_inner_class_layout(s: Seq<u8>, v: InnerClassInfo)
    ensures
        s.len() >= 8 ==> (<InnerClassInfo as FromReadContext>::spec_read(s) matches Parsed::Done(e, n) && n == 8
            && e.inner_class_info_index == u2_at(s, 0) && e.outer_class_info_index == u2_at(s, 2)
            && e.inner_name_index == u2_at(s, 4) && e.inner_class_access_flags == u2_at(s, 6)),
        s.len() < 8 ==> <InnerClassInfo as FromReadContext>::spec_read(s) is Fail,
        ({
            let b = <InnerClassInfo as FromWriteContext>::spec_write(v);
            &&& b.len() == 8
            &&& u2_at(b, 0) == v.inner_class_info_index && u2_at(b, 2) == v.outer_class_info_index
            &&& u2_at(b, 4) == v.inner_name_index && u2_at(b, 6) == v.inner_class_access_flags
        }),
{
    lemma_u2_written(v.inner_class_info_index);
    lemma_u2_written(v.outer_class_info_index);
    lemma_u2_written(v.inner_name_index);
    lemma_u2_written(v.inner_class_access_flags);
}

/// An entry of a local-variable table is ten bytes: `start_pc`, `length`, the name, the
/// descriptor, then the slot index.
pub proof fn lemma_local_variable_layout(s: Seq<u8>, v: LocalVariableTableInfo)
    ensures
        s.len() >= 10 ==> (<LocalVariableTableInfo as FromReadContext>::spec_read(s) matches Parsed::Done(e, n) && n == 10
            && e.start_pc == u2_at(s, 0) && e.length == u2_at(s, 2) && e.name_index == u2_at(s, 4)
            && e.descriptor_index == u2_at(s, 6) && e.index == u2_at(s, 8)),
        s.len() < 10 ==> <LocalVariableTableInfo as FromReadContext>::spec_read(s) is Fail,
        ({
            let b = <LocalVariableTableInfo as FromWriteContext>::spec_write(v);
            &&& b.len() == 10
            &&& u2_at(b, 0) == v.start_pc && u2_at(b, 2) == v.length && u2_at(b, 4) == v.name_index
            &&& u2_at(b, 6) == v.descriptor_index && u2_at(b, 8) == v.index
        }),
{
    lemma_u2_written(v.start_pc);
    lemma_u2_written(v.length);
    lemma_u2_written(v.name_index);
    lemma_u2_written(v.descriptor_index);
    lemma_u2_written(v.index);
}

/// An entry of a local-variable-type table is ten bytes: `start_pc`, `length`, the name,
/// the signature, then the slot index.
pub proof fn lemma_local_variable_type_layout(s: Seq<u8>, v: LocalVariableTypeTableInfo)
    ensures
        s.len() >= 10 ==> (<LocalVariableTypeTableInfo as FromReadContext>::spec_read(s) matches Parsed::Done(e, n) && n == 10
            && e.start_pc == u2_at(s, 0) && e.length == u2_at(s, 2) && e.name_index == u2_at(s, 4)
            && e.signature_index == u2_at(s, 6) && e.index == u2_at(s, 8)),
        s.len() < 10 ==> <LocalVariableTypeTableInfo as FromReadContext>::spec_read(s) is Fail,
        ({
            let b = <LocalVariableTypeTableInfo as FromWriteContext>::spec_write(v);
            &&& b.len() == 10
            &&& u2_at(b, 0) == v.start_pc && u2_at(b, 2) == v.length && u2_at(b, 4) == v.name_index
            &&& u2_at(b, 6) == v.signature_index && u2_at(b, 8) == v.index
        }),
{
    lemma_u2_written(v.start_pc);
    lemma_u2_written(v.length);
    lemma_u2_written(v.name_index);
    lemma_u2_written(v.signature_index);
    lemma_u2_written(v.index);
}

/// A method parameter is four bytes: its name, then its access flags.
pub proof fn lemma_method_parameter_layout(s: Seq<u8>, v: MethodParameter)
    ensures
        s.len() >= 4 ==> (<MethodParameter as FromReadContext>::spec_read(s) matches Parsed::Done(e, n) && n == 4
            && e.name_index == u2_at(s, 0) && e.access_flags == u2_at(s, 2)),
        s.len() < 4 ==> <MethodParameter as FromReadContext>::spec_read(s) is Fail,
        ({
            let b = <MethodParameter as FromWriteContext>::spec_write(v);
            b.len() == 4 && u2_at(b, 0) == v.name_index && u2_at(b, 2) == v.access_flags
        }),
{
    lemma_u2_written(v.name_index);
    lemma_u2_written(v.access_flags);
}

/// A required module is six bytes: the module, its flags, then its version.
pub proof fn lemma_module_requires_layout(s: Seq<u8>, v: ModuleRequires)
    ensures
        s.len() >= 6 ==> (<ModuleRequires as FromReadContext>::spec_read(s) matches Parsed::Done(e, n) && n == 6
            && e.requires_index == u2_at(s, 0) && e.requires_flags == u2_at(s, 2)
            && e.requires_version_index == u2_at(s, 4)),
        s.len() < 6 ==> <ModuleRequires as FromReadContext>::spec_read(s) is Fail,
        ({
            let b = <ModuleRequires as FromWriteContext>::spec_write(v);
            &&& b.len() == 6
            &&& u2_at(b, 0) == v.requires_index && u2_at(b, 2) == v.requires_flags
            &&& u2_at(b, 4) == v.requires_version_index
        }),
{
    lemma_u2_written(v.requires_index);
    lemma_u2_written(v.requires_flags);
    lemma_u2_written(v.requires_version_index);
}

/// The body of a constant is laid out by its tag (JVMS 4.4): a `Class`, `String`,
/// `MethodType`, `Module` or `Package` names one entry; a `Fieldref`, `Methodref`,
/// `InterfaceMethodref`, `NameAndType`, `Dynamic` or `InvokeDynamic` names two, in the
/// order the JVMS lists them; an `int` or `float` is four bytes; a `long` or `double` is
/// its high four bytes, then its low four; a `MethodHandle` is a kind byte, then an
/// entry; a `Utf8` is a `u2` length, then that many bytes.
pub proof fn lemma_const_layout(s: Seq<u8>, tag: u8)
    ensures
        tag == 1 && s.len() >= 2 && s.len() >= 2 + u2_at(s, 0) ==> (spec_read_const(s, tag) matches Parsed::Done(
            SpecConst::Utf8 { length, bytes },
            n,
        ) && length == u2_at(s, 0) && bytes == s.subrange(2, 2 + u2_at(s, 0)) && n == 2 + u2_at(s, 0)),
        (tag == 7 || tag == 8 || tag == 16 || tag == 19 || tag == 20) && s.len() >= 2 ==> (spec_read_const(s, tag) matches Parsed::Done(c, n)
            && n == 2 && match c {
            SpecConst::Class { name_index } => tag == 7 && name_index == u2_at(s, 0),
            SpecConst::String { string_index } => tag == 8 && string_index == u2_at(s, 0),
            SpecConst::MethodType { descriptor_index } => tag == 16 && descriptor_index == u2_at(s, 0),
            SpecConst::Module { name_index } => tag == 19 && name_index == u2_at(s, 0),
            SpecConst::Package { name_index } => tag == 20 && name_index == u2_at(s, 0),
            _ => false,
        }),
        (9 <= tag <= 12 || tag == 17 || tag == 18) && s.len() >= 4 ==> (spec_read_const(s, tag) matches Parsed::Done(c, n)
            && n == 4 && match c {
            SpecConst::Field { class_index, name_and_type_index } => tag == 9 && class_index == u2_at(s, 0)
                && name_and_type_index == u2_at(s, 2),
            SpecConst::Method { class_index, name_and_type_index } => tag == 10 && class_index == u2_at(s, 0)
                && name_and_type_index == u2_at(s, 2),
            SpecConst::InterfaceMethod { class_index, name_and_type_index } => tag == 11 && class_index == u2_at(
                s,
                0,
            ) && name_and_type_index == u2_at(s, 2),
            SpecConst::NameAndType { name_index, descriptor_index } => tag == 12 && name_index == u2_at(s, 0)
                && descriptor_index == u2_at(s, 2),
            SpecConst::Dynamic { bootstrap_method_attr_index, name_and_type_index } => tag == 17
                && bootstrap_method_attr_index == u2_at(s, 0) && name_and_type_index == u2_at(s, 2),
            SpecConst::InvokeDynamic { bootstrap_method_attr_index, name_and_type_index } => tag == 18
                && bootstrap_method_attr_index == u2_at(s, 0) && name_and_type_index == u2_at(s, 2),
            _ => false,
        }),
        tag == 3 && s.len() >= 4 ==> (spec_read_const(s, tag) matches Parsed::Done(SpecConst::Integer { bytes }, n)
            && n == 4 && bytes == u4_at(s, 0)),
        tag == 4 && s.len() >= 4 ==> (spec_read_const(s, tag) matches Parsed::Done(SpecConst::Float { bytes }, n)
            && n == 4 && bytes == u4_at(s, 0)),
        tag == 5 && s.len() >= 8 ==> (spec_read_const(s, tag) matches Parsed::Done(
            SpecConst::Long { high_bytes, low_bytes },
            n,
        ) && n == 8 && high_bytes == u4_at(s, 0) && low_bytes == u4_at(s, 4)),
        tag == 6 && s.len() >= 8 ==> (spec_read_const(s, tag) matches Parsed::Done(
            SpecConst::Double { high_bytes, low_bytes },
            n,
        ) && n == 8 && high_bytes == u4_at(s, 0) && low_bytes == u4_at(s, 4)),
        tag == 15 && s.len() >= 3 ==> (spec_read_const(s, tag) matches Parsed::Done(
            SpecConst::MethodHandle { reference_kind, reference_index },
            n,
        ) && n == 3 && reference_kind == s[0] && reference_index == u2_at(s, 1)),
{
}

/// A field or method starts with its access flags, its name, its descriptor and its
/// attribute count, each a `u2`, in that order.
pub proof fn lemma_member_layout(s: Seq<u8>)
    ensures
        spec_read_member(s) matches Parsed::Done(m, _) ==> {
            &&& m.access_flags == u2_at(s, 0)
            &&& m.name_index == u2_at(s, 2)
            &&& m.descriptor_index == u2_at(s, 4)
            &&& m.attributes_count == u2_at(s, 6)
        },
{
}

/// An attribute is its name index (`u2`), its length (`u4`), then that many bytes of body.
pub proof fn lemma_raw_attribute_layout(s: Seq<u8>)
    ensures
        spec_read_raw_attribute(s) matches Parsed::Done(a, n) ==> {
            &&& a.attribute_name_index == u2_at(s, 0)
            &&& a.attribute_length == u4_at(s, 2)
            &&& n == 6 + u4_at(s, 2)
            &&& a.info == SpecAttribute::Custom(s.subrange(6, 6 + u4_at(s, 2)))
        },
        s.len() >= 6 && s.len() >= 6 + u4_at(s, 2) ==> spec_read_raw_attribute(s) is Done,
{
}

/// A class file starts with its magic number (`u4`), its minor version, its major version
/// and its constant-pool count (`u2` each), in that order; right after the constant pool
/// come its access flags, `this_class` and `super_class`.
pub proof fn lemma_class_header_layout(s: Seq<u8>)
    ensures
        spec_read_raw_class_file(s) matches Parsed::Done(cf, _) ==> header_at(s, cf),
        spec_read_class_bytes(s) matches Outcome::Value(cf) ==> header_at(s, cf),
{
    reveal(spec_read_class_tail);
    if s.len() >= 10 {
        let count = u2_at(s, 8) as nat;
        lemma_cp_len(s.skip(10), count);
        if let Parsed::Done(cp, n) = spec_read_cp(s.skip(10), count) {
            let t = s.skip(10 + n as int);
            if t.len() >= 6 {
                assert(t[0] == s[10 + n as int] && t[1] == s[11 + n as int]);
                assert(t[2] == s[12 + n as int] && t[3] == s[13 + n as int]);
                assert(t[4] == s[14 + n as int] && t[5] == s[15 + n as int]);
            }
        }
    }
}

/// Whether the header fields of `cf` are those that the bytes `s` hold where the JVMS puts
/// them.
pub open spec fn header_at(s: Seq<u8>, cf: SpecClassFile) -> bool {
    &&& s.len() >= 10
    &&& cf.magic == u4_at(s, 0)
    &&& cf.minor_version == u2_at(s, 4)
    &&& cf.major_version == u2_at(s, 6)
    &&& cf.constant_pool_count == u2_at(s, 8)
    &&& spec_read_cp(s.skip(10), u2_at(s, 8) as nat) matches Parsed::Done(cp, n)
    &&& cf.constant_pool == cp
    &&& s.len() >= 16 + n
    &&& cf.access_flags == u2_at(s, 10 + n as int)
    &&& cf.this_class == u2_at(s, 12 + n as int)
    &&& cf.super_class == u2_at(s, 14 + n as int)
}

/// `k` values of two bytes each are read as the big-endian values of consecutive byte
/// pairs.
pub proof fn lemma_u2_list_layout(s: Seq<u8>, k: nat)
    ensures
        spec_read_vec::<u16>(s, k) matches Parsed::Done(vs, n) ==> n == 2 * k && vs.len() == k && forall|i: int|
            0 <= i < k ==> #[trigger] vs[i] == u2_at(s, 2 * i),
    decreases k,
{
    if k > 0 {
        lemma_u2_list_layout(s, (k - 1) as nat);
        lemma_read_vec_len::<u16>(s, (k - 1) as nat);
        if let Parsed::Done(vs, m) = spec_read_vec::<u16>(s, (k - 1) as nat) {
            let t = s.skip(m as int);
            if t.len() >= 2 {
                assert(t[0] == s[m as int] && t[1] == s[m as int + 1]);
            }
        }
    }
}

/// A counted list of `u2` (interfaces, exceptions, nest members, ...) is its count, then
/// that many big-endian `u2`.
pub proof fn lemma_u2_counted_layout(s: Seq<u8>)
    ensures
        spec_read_counted::<u16>(s) matches Parsed::Done(v, n) ==> {
            &&& v.0 == u2_at(s, 0)
            &&& v.1.len() == v.0
            &&& n == 2 + 2 * v.0
            &&& forall|i: int| 0 <= i < v.1.len() ==> #[trigger] v.1[i] == u2_at(s, 2 + 2 * i)
        },
{
    reveal(spec_read_counted);
    if s.len() >= 2 {
        let k = u2_at(s, 0) as nat;
        lemma_u2_list_layout(s.skip(2), k);
        lemma_read_vec_len::<u16>(s.skip(2), k);
        if let Parsed::Done(vs, m) = spec_read_vec::<u16>(s.skip(2), k) {
            assert forall|i: int| 0 <= i < vs.len() implies #[trigger] vs[i] == u2_at(s, 2 + 2 * i) by {
                assert(s.skip(2)[2 * i] == s[2 + 2 * i] && s.skip(2)[2 * i + 1] == s[2 + 2 * i + 1]);
            }
        }
    }
}

/// An attribute body is read as the kind its name says: a body read into a structure is
/// one whose name is the name it was read under.
pub proof fn lemma_attribute_body_kind(name: Seq<char>, s: Seq<u8>, length: u32)
    ensures
        spec_attribute_body(name, s, length) matches Parsed::Done(info, _) ==> info is Custom || attribute_name(info)
            == name,
{
}

/// The bodies of the attributes that hold one or two entries are those `u2`, in the order
/// the JVMS lists them, and a source debug extension is the bytes of its length.
pub proof fn lemma_simple_bodies_layout(s: Seq<u8>, length: u32)
    ensures
        s.len() >= 2 ==> (spec_attribute_body("ConstantValue"@, s, length) matches Parsed::Done(
            SpecAttribute::ConstantValue { constantvalue_index },
            n,
        ) && n == 2 && constantvalue_index == u2_at(s, 0)),
        s.len() >= 2 ==> (spec_attribute_body("Signature"@, s, length) matches Parsed::Done(
            SpecAttribute::Signature { signature_index },
            n,
        ) && n == 2 && signature_index == u2_at(s, 0)),
        s.len() >= 2 ==> (spec_attribute_body("SourceFile"@, s, length) matches Parsed::Done(
            SpecAttribute::SourceFile { sourcefile_index },
            n,
        ) && n == 2 && sourcefile_index == u2_at(s, 0)),
        s.len() >= 2 ==> (spec_attribute_body("NestHost"@, s, length) matches Parsed::Done(
            SpecAttribute::NestHost { host_class_index },
            n,
        ) && n == 2 && host_class_index == u2_at(s, 0)),
        s.len() >= 2 ==> (spec_attribute_body("ModuleMainClass"@, s, length) matches Parsed::Done(
            SpecAttribute::ModuleMainClass { main_class_index },
            n,
        ) && n == 2 && main_class_index == u2_at(s, 0)),
        s.len() >= 4 ==> (spec_attribute_body("EnclosingMethod"@, s, length) matches Parsed::Done(
            SpecAttribute::EnclosingMethod { class_index, method_index },
            n,
        ) && n == 4 && class_index == u2_at(s, 0) && method_index == u2_at(s, 2)),
        s.len() >= length ==> (spec_attribute_body("SourceDebugExtension"@, s, length) matches Parsed::Done(
            SpecAttribute::SourceDebugExtension { debug_extension },
            n,
        ) && n == length && debug_extension == s.take(length as int)),
{
    lemma_attribute_names();
}

/// The body of a `Code` attribute is `max_stack`, `max_locals` (`u2` each), `code_length`
/// (`u4`), that many bytes of code, then the exception table and the attributes.
pub proof fn lemma_code_layout(s: Seq<u8>)
    ensures
        spec_read_code_raw(s) matches Parsed::Done(c, _) ==> {
            &&& c.max_stack == u2_at(s, 0)
            &&& c.max_locals == u2_at(s, 2)
            &&& c.code_length == u4_at(s, 4)
            &&& c.code == s.subrange(8, 8 + u4_at(s, 4))
            &&& spec_read_counted::<ExceptionTable>(s.skip(8 + u4_at(s, 4))) matches Parsed::Done(et, _)
            &&& c.exception_table == et
        },
{
}

} // verus!
