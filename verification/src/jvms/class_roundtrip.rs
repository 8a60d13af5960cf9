//! The law of the class-file format: a class file whose attributes are in normal form,
//! once written, reads back as itself, attribute bodies and all.

use crate::jvms::attr::{ExceptionTable, SpecAttribute};
use crate::jvms::element::{AttributeInfo, FieldInfo, MethodInfo, SpecAttributeInfo, SpecCPInfo, SpecClassFile, SpecMemberInfo};
use crate::jvms::normal_form::{attribute_name, attribute_wf, body_wf, is_known_attribute_name, lemma_attribute_names, lemma_known_body_roundtrip};
use crate::jvms::read::bytes::{be_u16, be_u32, Parsed};
use crate::jvms::read::class_reader::spec_read_class_bytes;
use crate::jvms::read::jvms_reader::{spec_read_counted, spec_read_raw_class_file};
use crate::jvms::reread::lemma_raw_class_file_reread;
use crate::jvms::read::transform::{
    body_limit, lemma_code_attributes_short, spec_cp_utf8, spec_read_code_raw, spec_transform_attribute,
    spec_transform_attributes, spec_transform_class_file, spec_transform_member, spec_transform_members, Outcome,
    SpecCodeRaw,
};
use crate::jvms::roundtrip::{cp_wf, lemma_counted_roundtrip, lemma_raw_class_file_roundtrip, lemma_u32_bytes, raw_attribute_wf, raw_class_file_wf, raw_member_wf};
use crate::jvms::wire::{all_wf, lemma_u16_bytes};
use crate::jvms::write::bytes::{spec_write_vec, u16_bytes, u32_bytes};
use crate::jvms::write::jvms_writer::{attribute_body_bytes, attribute_info_bytes, attribute_infos_bytes, class_file_bytes, lemma_attribute_infos_bytes, member_bytes};
use vstd::prelude::*;

verus! {

/// The attribute as the reader first sees it: the same name and length, with its body as bytes.
pub open spec fn raw_attribute(a: SpecAttributeInfo) -> SpecAttributeInfo {
    SpecAttributeInfo { info: SpecAttribute::Custom(attribute_body_bytes(a.info)), ..a }
}

/// Each attribute of `s` with its body as bytes.
pub open spec fn raw_attributes(s: Seq<SpecAttributeInfo>) -> Seq<SpecAttributeInfo> {
    s.map_values(|a: SpecAttributeInfo| raw_attribute(a))
}

/// The member with the bodies of its attributes as bytes.
pub open spec fn raw_member(m: SpecMemberInfo) -> SpecMemberInfo {
    SpecMemberInfo { attributes: raw_attributes(m.attributes), ..m }
}

/// Each member of `s` with the bodies of its attributes as bytes.
pub open spec fn raw_members(s: Seq<SpecMemberInfo>) -> Seq<SpecMemberInfo> {
    s.map_values(|m: SpecMemberInfo| raw_member(m))
}

/// The class file with every attribute body, its own and its members', as bytes.
pub open spec fn raw_class_file(cf: SpecClassFile) -> SpecClassFile {
    SpecClassFile {
        fields: raw_members(cf.fields),
        methods: raw_members(cf.methods),
        attributes: raw_attributes(cf.attributes),
        ..cf
    }
}

/// Every attribute of `s` is in normal form.
pub open spec fn attributes_wf(s: Seq<SpecAttributeInfo>, cp: Seq<SpecCPInfo>) -> bool {
    forall|i: int| 0 <= i < s.len() ==> attribute_wf(#[trigger] s[i], cp)
}

/// A field or method whose attribute count matches and whose attributes are in normal form.
pub open spec fn member_wf(m: SpecMemberInfo, cp: Seq<SpecCPInfo>) -> bool {
    m.attributes.len() == m.attributes_count && attributes_wf(m.attributes, cp)
}

/// Every member of `s` is well-formed.
pub open spec fn members_wf(s: Seq<SpecMemberInfo>, cp: Seq<SpecCPInfo>) -> bool {
    forall|i: int| 0 <= i < s.len() ==> member_wf(#[trigger] s[i], cp)
}

/// A class file in normal form: a well-formed constant pool, counts that match their
/// lists, and every attribute, its own and its members', in normal form.
pub open spec fn class_file_wf(cf: SpecClassFile) -> bool {
    let cp = cf.constant_pool;
    &&& cp_wf(cp, cf.constant_pool_count)
    &&& cf.interfaces.len() == cf.interfaces_count
    &&& cf.fields.len() == cf.fields_count
    &&& members_wf(cf.fields, cp)
    &&& cf.methods.len() == cf.methods_count
    &&& members_wf(cf.methods, cp)
    &&& cf.attributes.len() == cf.attributes_count
    &&& attributes_wf(cf.attributes, cp)
}

/// Writing attributes with their bodies as bytes writes the same bytes.
pub proof fn lemma_raw_attributes_bytes(s: Seq<SpecAttributeInfo>)
    ensures
        attribute_infos_bytes(raw_attributes(s)) == attribute_infos_bytes(s),
        raw_attributes(s).len() == s.len(),
    decreases s.len(),
{
    if s.len() > 0 {
        let init = s.subrange(0, s.len() - 1);
        lemma_raw_attributes_bytes(init);
        assert(raw_attributes(s).subrange(0, s.len() - 1) =~= raw_attributes(init));
        assert(attribute_info_bytes(raw_attribute(s[s.len() - 1])) =~= attribute_info_bytes(s[s.len() - 1]));
    }
}

/// A member with its attribute bodies as bytes is written as the same bytes.
pub proof fn lemma_raw_member_bytes(m: SpecMemberInfo)
    ensures
        member_bytes(raw_member(m)) == member_bytes(m),
{
    lemma_raw_attributes_bytes(m.attributes);
}

/// Fields with their attribute bodies as bytes are written as the same bytes.
pub proof fn lemma_raw_fields_bytes(s: Seq<SpecMemberInfo>)
    ensures
        spec_write_vec::<FieldInfo>(raw_members(s)) == spec_write_vec::<FieldInfo>(s),
    decreases s.len(),
{
    if s.len() > 0 {
        lemma_raw_fields_bytes(s.drop_last());
        assert(raw_members(s).drop_last() =~= raw_members(s.drop_last()));
        lemma_raw_member_bytes(s.last());
    }
}

/// Methods with their attribute bodies as bytes are written as the same bytes.
pub proof fn lemma_raw_methods_bytes(s: Seq<SpecMemberInfo>)
    ensures
        spec_write_vec::<MethodInfo>(raw_members(s)) == spec_write_vec::<MethodInfo>(s),
    decreases s.len(),
{
    if s.len() > 0 {
        lemma_raw_methods_bytes(s.drop_last());
        assert(raw_members(s).drop_last() =~= raw_members(s.drop_last()));
        lemma_raw_member_bytes(s.last());
    }
}

/// A class file with its attribute bodies as bytes is written as the same bytes.
pub proof fn lemma_raw_class_file_bytes(cf: SpecClassFile)
    ensures
        class_file_bytes(raw_class_file(cf)) == class_file_bytes(cf),
{
    lemma_raw_attributes_bytes(cf.attributes);
    lemma_raw_fields_bytes(cf.fields);
    lemma_raw_methods_bytes(cf.methods);
}

/// The attributes of `s`, in normal form, with their bodies as bytes, are as the reader
/// first produces them.
pub proof fn lemma_raw_attributes_wf(s: Seq<SpecAttributeInfo>, cp: Seq<SpecCPInfo>)
    requires
        attributes_wf(s, cp),
    ensures
        all_wf::<AttributeInfo>(raw_attributes(s)),
{
    assert forall|i: int| 0 <= i < raw_attributes(s).len() implies #[trigger] raw_attribute_wf(
        raw_attributes(s)[i],
    ) by {
        assert(attribute_wf(s[i], cp));
    }
}

/// A class file in normal form, with its attribute bodies as bytes, is as the reader
/// first produces it.
pub proof fn lemma_raw_class_file_wf(cf: SpecClassFile)
    requires
        class_file_wf(cf),
    ensures
        raw_class_file_wf(raw_class_file(cf)),
{
    let cp = cf.constant_pool;
    lemma_raw_attributes_wf(cf.attributes, cp);
    assert forall|i: int| 0 <= i < raw_members(cf.fields).len() implies #[trigger] raw_member_wf(
        raw_members(cf.fields)[i],
    ) by {
        assert(member_wf(cf.fields[i], cp));
        lemma_raw_attributes_wf(cf.fields[i].attributes, cp);
    }
    assert forall|i: int| 0 <= i < raw_members(cf.methods).len() implies #[trigger] raw_member_wf(
        raw_members(cf.methods)[i],
    ) by {
        assert(member_wf(cf.methods[i], cp));
        lemma_raw_attributes_wf(cf.methods[i].attributes, cp);
    }
}

/// The body of a Code attribute in normal form, once written, reads back with its own
/// attributes as bytes.
#[verifier::spinoff_prover]
pub proof fn lemma_code_body_raw(info: SpecAttribute, cp: Seq<SpecCPInfo>)
    requires
        info is Code,
        body_wf(info),
        attributes_wf(info->attributes, cp),
    ensures
        spec_read_code_raw(attribute_body_bytes(info)) == Parsed::Done(
            SpecCodeRaw {
                max_stack: info->max_stack,
                max_locals: info->max_locals,
                code_length: info->code_length,
                code: info->code,
                exception_table: (info->exception_table_length, info->exception_table),
                attributes: (info->attributes_count, raw_attributes(info->attributes)),
            },
            attribute_body_bytes(info).len(),
        ),
{
    if let SpecAttribute::Code {
        max_stack,
        max_locals,
        code_length,
        code,
        exception_table_length,
        exception_table,
        attributes_count,
        attributes,
    } = info {
        let s = attribute_body_bytes(info);
        let raw = raw_attributes(attributes);
        lemma_raw_attributes_bytes(attributes);
        lemma_attribute_infos_bytes(raw);
        lemma_raw_attributes_wf(attributes, cp);
        let h = u16_bytes(max_stack) + u16_bytes(max_locals) + u32_bytes(code_length);
        let c2 = u16_bytes(attributes_count) + spec_write_vec::<AttributeInfo>(raw);
        let c1 = u16_bytes(exception_table_length) + spec_write_vec::<ExceptionTable>(exception_table);
        assert(s =~= h + code + (c1 + c2));
        lemma_u16_bytes(max_stack);
        lemma_u16_bytes(max_locals);
        lemma_u32_bytes(code_length);
        assert(s[0] == h[0] && s[1] == h[1] && s[2] == h[2] && s[3] == h[3]);
        assert(s[4] == h[4] && s[5] == h[5] && s[6] == h[6] && s[7] == h[7]);
        assert(h[4] == u32_bytes(code_length)[0] && h[5] == u32_bytes(code_length)[1]);
        assert(h[6] == u32_bytes(code_length)[2] && h[7] == u32_bytes(code_length)[3]);
        let p: int = 8 + code_length;
        assert(s.subrange(8, p) =~= code);
        assert(s.skip(p) =~= c1 + c2);
        assert(all_wf::<ExceptionTable>(exception_table));
        lemma_counted_roundtrip::<ExceptionTable>(exception_table_length, exception_table, c2);
        assert(c1 + c2 =~= u16_bytes(exception_table_length) + spec_write_vec::<ExceptionTable>(exception_table) + c2);
        assert(s.skip(p + c1.len()) =~= c2);
        lemma_counted_roundtrip::<AttributeInfo>(attributes_count, raw, Seq::empty());
        assert(c2 =~= c2 + Seq::<u8>::empty());
    }
}

/// The body of an attribute in normal form is shorter than [body_limit].
proof fn lemma_bodies_below_limit(s: Seq<SpecAttributeInfo>, cp: Seq<SpecCPInfo>)
    requires
        attributes_wf(s, cp),
    ensures
        forall|i: int| 0 <= i < s.len() ==> attribute_body_bytes((#[trigger] s[i]).info).len() < body_limit(),
{
    assert forall|i: int| 0 <= i < s.len() implies attribute_body_bytes((#[trigger] s[i]).info).len()
        < body_limit() by {
        assert(attribute_wf(s[i], cp));
    }
}

/// An attribute in normal form, with its body as bytes, has its body read back into itself.
pub proof fn lemma_transform_raw_attribute(a: SpecAttributeInfo, cp: Seq<SpecCPInfo>, limit: nat)
    requires
        attribute_wf(a, cp),
        attribute_body_bytes(a.info).len() < limit,
    ensures
        spec_transform_attribute(raw_attribute(a), cp, limit) == Outcome::Value(a),
    decreases attribute_body_bytes(a.info).len(), 1nat, 0nat,
{
    let bytes = attribute_body_bytes(a.info);
    lemma_attribute_names();
    match a.info {
        SpecAttribute::Custom(b) => {
        },
        SpecAttribute::Code { attributes, .. } => {
            lemma_code_body_raw(a.info, cp);
            lemma_code_attributes_short(bytes);
            let raw = raw_attributes(attributes);
            assert forall|i: int| 0 <= i < attributes.len() implies attribute_body_bytes(
                (#[trigger] attributes[i]).info,
            ).len() < bytes.len() by {
                assert(raw[i].info == SpecAttribute::Custom(attribute_body_bytes(attributes[i].info)));
            }
            lemma_transform_raw_attributes(attributes, cp, bytes.len());
        },
        _ => {
            lemma_known_body_roundtrip(a.info);
        },
    }
}

/// Attributes in normal form, with their bodies as bytes, have their bodies read back
/// into themselves, given bodies shorter than `limit`.
pub proof fn lemma_transform_raw_attributes(s: Seq<SpecAttributeInfo>, cp: Seq<SpecCPInfo>, limit: nat)
    requires
        attributes_wf(s, cp),
        forall|i: int| 0 <= i < s.len() ==> attribute_body_bytes((#[trigger] s[i]).info).len() < limit,
    ensures
        spec_transform_attributes(raw_attributes(s), cp, limit) == Outcome::Value(s),
    decreases limit, 0nat, s.len(),
{
    if s.len() > 0 {
        let init = s.drop_last();
        assert(attributes_wf(init, cp)) by {
            assert forall|i: int| 0 <= i < init.len() implies attribute_wf(#[trigger] init[i], cp) by {
                assert(init[i] == s[i]);
            }
        }
        assert forall|i: int| 0 <= i < init.len() implies attribute_body_bytes((#[trigger] init[i]).info).len()
            < limit by {
            assert(init[i] == s[i]);
        }
        lemma_transform_raw_attributes(init, cp, limit);
        assert(raw_attributes(s).drop_last() =~= raw_attributes(init));
        assert(attribute_wf(s[s.len() - 1], cp));
        assert(attribute_body_bytes(s[s.len() - 1].info).len() < limit);
        lemma_transform_raw_attribute(s.last(), cp, limit);
        assert(init.push(s.last()) =~= s);
    } else {
        assert(raw_attributes(s) =~= Seq::<SpecAttributeInfo>::empty());
        assert(s =~= Seq::<SpecAttributeInfo>::empty());
    }
}

/// Members in normal form, with their attribute bodies as bytes, have their bodies read
/// back into themselves.
pub proof fn lemma_transform_raw_members(s: Seq<SpecMemberInfo>, cp: Seq<SpecCPInfo>)
    requires
        members_wf(s, cp),
    ensures
        spec_transform_members(raw_members(s), cp) == Outcome::Value(s),
    decreases s.len(),
{
    if s.len() > 0 {
        let init = s.drop_last();
        assert(members_wf(init, cp)) by {
            assert forall|i: int| 0 <= i < init.len() implies member_wf(#[trigger] init[i], cp) by {
                assert(init[i] == s[i]);
            }
        }
        lemma_transform_raw_members(init, cp);
        assert(raw_members(s).drop_last() =~= raw_members(init));
        let m = s.last();
        assert(member_wf(s[s.len() - 1], cp));
        lemma_bodies_below_limit(m.attributes, cp);
        lemma_transform_raw_attributes(m.attributes, cp, body_limit());
        assert(spec_transform_member(raw_member(m), cp) == Outcome::Value(m));
        assert(init.push(m) =~= s);
    } else {
        assert(raw_members(s) =~= Seq::<SpecMemberInfo>::empty());
        assert(s =~= Seq::<SpecMemberInfo>::empty());
    }
}

/// Writing a class file in normal form and reading it back gives the class file, its
/// attribute bodies read into their structures as they were.
pub proof fn lemma_class_file_roundtrip(cf: SpecClassFile)
    requires
        class_file_wf(cf),
    ensures
        spec_read_class_bytes(class_file_bytes(cf)) == Outcome::Value(cf),
{
    let raw = raw_class_file(cf);
    let cp = cf.constant_pool;
    lemma_raw_class_file_bytes(cf);
    lemma_raw_class_file_wf(cf);
    lemma_raw_class_file_roundtrip(raw, Seq::empty());
    assert(class_file_bytes(raw) + Seq::<u8>::empty() =~= class_file_bytes(raw));
    lemma_bodies_below_limit(cf.attributes, cp);
    lemma_transform_raw_attributes(cf.attributes, cp, body_limit());
    lemma_transform_raw_members(cf.fields, cp);
    lemma_transform_raw_members(cf.methods, cp);
}

} // verus!

verus! {

/// Reading a class file and writing it gives back the bytes it was read from, wherever
/// each attribute body, the class's and its members', is written as the bytes it was read
/// from: that is, where the class file read with its bodies as bytes is the one read with
/// them in their structures, each body written back as bytes. (A body that the reader
/// accepts in another form, such as one longer than its structure, is written in the
/// writer's form, and then the bytes differ.)
pub proof fn lemma_read_class_rewrite(s: Seq<u8>)
    requires
        spec_read_raw_class_file(s) matches Parsed::Done(raw, _) && spec_read_class_bytes(s) matches Outcome::Value(
            cf,
        ) && raw_class_file(cf) == raw,
    ensures
        spec_read_raw_class_file(s) matches Parsed::Done(raw, n) && spec_read_class_bytes(s) matches Outcome::Value(
            cf,
        ) && class_file_bytes(cf) == s.take(n as int),
{
    lemma_raw_class_file_reread(s);
    let cf = spec_read_class_bytes(s)->Value_0;
    lemma_raw_class_file_bytes(cf);
}

} // verus!
