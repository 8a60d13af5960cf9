//! What a write gives back when read: a class file written as bytes reads back as the
//! same class file, and the bytes after it are left alone.

use crate::err::AsmErr;
use crate::jvms::attr::SpecAttribute;
use crate::jvms::element::{
    AttributeInfo, CPInfo, FieldInfo, MethodInfo, SpecAttributeInfo, SpecCPInfo, SpecClassFile, SpecConst,
    SpecMemberInfo,
};
use crate::jvms::read::bytes::{be_u16, be_u32, spec_read_vec, FromReadContext, Parsed};
use crate::jvms::read::jvms_reader::{
    cp_placeholder, cp_slot_entries, cp_slots, spec_cp_entries, spec_read_class_tail, spec_read_const, spec_read_counted,
    spec_read_cp, spec_read_member, spec_read_raw_attribute, spec_read_raw_class_file,
};
use crate::jvms::wire::{all_wf, lemma_u16_bytes, lemma_vec_roundtrip, Codec};
use crate::jvms::write::bytes::{spec_write_vec, u16_bytes, u32_bytes, FromWriteContext};
use crate::jvms::write::jvms_writer::{
    attribute_info_bytes, attribute_infos_bytes, class_file_bytes, const_body_bytes, cp_bytes, cp_entries_bytes, entry_slots,
    lemma_attribute_infos_bytes, member_bytes,
};
use vstd::prelude::*;

verus! {

/// The four bytes of a `u32` read back as the `u32`.
pub proof fn lemma_u32_bytes(v: u32)
    ensures
        u32_bytes(v).len() == 4,
        be_u32(u32_bytes(v)[0], u32_bytes(v)[1], u32_bytes(v)[2], u32_bytes(v)[3]) == v,
{
    let b = u32_bytes(v);
    assert(be_u32(b[0], b[1], b[2], b[3]) == v) by (nonlinear_arith)
        requires
            b[0] == (v / 16777216) as u8,
            b[1] == (v / 65536 % 256) as u8,
            b[2] == (v / 256 % 256) as u8,
            b[3] == (v % 256) as u8,
    ;
}

/// Reading a counted sequence that was written with its count gives the sequence back.
pub proof fn lemma_counted_roundtrip<T: Codec>(n: u16, vs: Seq<<T as DeepView>::V>, rest: Seq<u8>)
    requires
        vs.len() == n,
        all_wf::<T>(vs),
    ensures
        spec_read_counted::<T>(u16_bytes(n) + spec_write_vec::<T>(vs) + rest) == Parsed::Done(
            (n, vs),
            2 + spec_write_vec::<T>(vs).len(),
        ),
{
    reveal(spec_read_counted);
    let w = spec_write_vec::<T>(vs);
    let b = u16_bytes(n) + w + rest;
    lemma_u16_bytes(n);
    assert(b[0] == u16_bytes(n)[0] && b[1] == u16_bytes(n)[1]);
    assert(b.skip(2) =~= w + rest);
    lemma_vec_roundtrip::<T>(vs, rest);
}

/// The constant `c` is what an entry with tag `tag` holds, and a `CONSTANT_Utf8` holds as
/// many bytes as it says.
pub open spec fn const_matches_tag(tag: u8, c: SpecConst) -> bool {
    match c {
        SpecConst::Invalid => tag == 0,
        SpecConst::Utf8 { length, bytes } => tag == 1 && bytes.len() == length,
        SpecConst::Integer { .. } => tag == 3,
        SpecConst::Float { .. } => tag == 4,
        SpecConst::Long { .. } => tag == 5,
        SpecConst::Double { .. } => tag == 6,
        SpecConst::Class { .. } => tag == 7,
        SpecConst::String { .. } => tag == 8,
        SpecConst::Field { .. } => tag == 9,
        SpecConst::Method { .. } => tag == 10,
        SpecConst::InterfaceMethod { .. } => tag == 11,
        SpecConst::NameAndType { .. } => tag == 12,
        SpecConst::MethodHandle { .. } => tag == 15,
        SpecConst::MethodType { .. } => tag == 16,
        SpecConst::Dynamic { .. } => tag == 17,
        SpecConst::InvokeDynamic { .. } => tag == 18,
        SpecConst::Module { .. } => tag == 19,
        SpecConst::Package { .. } => tag == 20,
    }
}

/// The body of a constant reads back as the constant.
pub proof fn lemma_const_roundtrip(tag: u8, c: SpecConst, rest: Seq<u8>)
    requires
        const_matches_tag(tag, c),
    ensures
        spec_read_const(const_body_bytes(c) + rest, tag) == Parsed::Done(c, const_body_bytes(c).len()),
{
    let w = const_body_bytes(c);
    let b = w + rest;
    match c {
        SpecConst::Utf8 { length, bytes } => {
            lemma_u16_bytes(length);
            assert(b[0] == u16_bytes(length)[0] && b[1] == u16_bytes(length)[1]);
            assert(b.subrange(2, 2 + length) =~= bytes);
        },
        SpecConst::Integer { bytes } | SpecConst::Float { bytes } => {
            lemma_u32_bytes(bytes);
            assert(b[0] == w[0] && b[1] == w[1] && b[2] == w[2] && b[3] == w[3]);
        },
        SpecConst::Long { high_bytes, low_bytes } | SpecConst::Double { high_bytes, low_bytes } => {
            lemma_u32_bytes(high_bytes);
            lemma_u32_bytes(low_bytes);
            assert(b[0] == w[0] && b[1] == w[1] && b[2] == w[2] && b[3] == w[3]);
            assert(b[4] == u32_bytes(low_bytes)[0] && b[5] == u32_bytes(low_bytes)[1]);
            assert(b[6] == u32_bytes(low_bytes)[2] && b[7] == u32_bytes(low_bytes)[3]);
        },
        SpecConst::MethodHandle { reference_kind, reference_index } => {
            lemma_u16_bytes(reference_index);
            assert(b[0] == reference_kind);
            assert(b[1] == u16_bytes(reference_index)[0] && b[2] == u16_bytes(reference_index)[1]);
        },
        SpecConst::Invalid => {},
        SpecConst::Class { name_index } | SpecConst::Module { name_index } | SpecConst::Package {
            name_index,
        } => {
            lemma_u16_bytes(name_index);
            assert(b[0] == w[0] && b[1] == w[1]);
        },
        SpecConst::String { string_index } => {
            lemma_u16_bytes(string_index);
            assert(b[0] == w[0] && b[1] == w[1]);
        },
        SpecConst::MethodType { descriptor_index } => {
            lemma_u16_bytes(descriptor_index);
            assert(b[0] == w[0] && b[1] == w[1]);
        },
        SpecConst::Field { class_index: x, name_and_type_index: y }
        | SpecConst::Method { class_index: x, name_and_type_index: y }
        | SpecConst::InterfaceMethod { class_index: x, name_and_type_index: y }
        | SpecConst::NameAndType { name_index: x, descriptor_index: y }
        | SpecConst::Dynamic { bootstrap_method_attr_index: x, name_and_type_index: y }
        | SpecConst::InvokeDynamic { bootstrap_method_attr_index: x, name_and_type_index: y } => {
            lemma_u16_bytes(x);
            lemma_u16_bytes(y);
            assert(b[0] == w[0] && b[1] == w[1] && b[2] == w[2] && b[3] == w[3]);
            assert(w[2] == u16_bytes(y)[0] && w[3] == u16_bytes(y)[1]);
        },
    }
}

/// Whether `es` are constant-pool entries as the reader lays them out: each entry holds
/// what its tag says, and a `Long` or `Double` is followed by the placeholder in the
/// unusable slot after it.
pub open spec fn cp_entries_wf(es: Seq<SpecCPInfo>) -> bool
    decreases es.len(),
{
    if es.len() == 0 {
        true
    } else {
        &&& const_matches_tag(es[0].tag, es[0].info)
        &&& if cp_slots(es[0].tag) == 2 {
            es.len() >= 2 && es[1] == cp_placeholder() && cp_entries_wf(es.skip(2))
        } else {
            cp_entries_wf(es.skip(1))
        }
    }
}

/// A constant pool as the reader produces it: the placeholder, then entries laid out as
/// [cp_entries_wf] says, one per slot of the `count` slots.
pub open spec fn cp_wf(cp: Seq<SpecCPInfo>, count: u16) -> bool {
    &&& cp.len() >= 1
    &&& cp[0] == cp_placeholder()
    &&& cp_entries_wf(cp.skip(1))
    &&& count == cp.len()
}

/// Constant-pool entries read back as the entries.
pub proof fn lemma_cp_entries_roundtrip(es: Seq<SpecCPInfo>, rest: Seq<u8>)
    requires
        cp_entries_wf(es),
    ensures
        spec_cp_entries(cp_entries_bytes(es) + rest, es.len()) == Parsed::Done(es, cp_entries_bytes(es).len()),
    decreases es.len(),
{
    if es.len() == 0 {
        assert(es =~= Seq::<SpecCPInfo>::empty());
    } else {
        let e = es[0];
        let k = cp_slots(e.tag);
        assert(entry_slots(e, es.len()) == k);
        let tail = es.skip(k as int);
        lemma_cp_entries_roundtrip(tail, rest);
        let wt = cp_entries_bytes(tail);
        let b = cp_entries_bytes(es) + rest;
        assert(b =~= seq![e.tag] + (const_body_bytes(e.info) + (wt + rest)));
        assert(b[0] == e.tag);
        assert(b.skip(1) =~= const_body_bytes(e.info) + (wt + rest));
        lemma_const_roundtrip(e.tag, e.info, wt + rest);
        let n = const_body_bytes(e.info).len();
        assert(b.skip(1 + n as int) =~= wt + rest);
        assert(tail.len() == es.len() - k);
        assert(cp_slot_entries(e.tag, e.info) + tail =~= es);
    }
}

/// A well-formed constant pool reads back as itself.
pub proof fn lemma_cp_roundtrip(cp: Seq<SpecCPInfo>, count: u16, rest: Seq<u8>)
    requires
        cp_wf(cp, count),
    ensures
        spec_read_cp(cp_bytes(cp) + rest, count as nat) == Parsed::Done(cp, cp_bytes(cp).len()),
{
    lemma_cp_entries_roundtrip(cp.skip(1), rest);
    assert(seq![cp_placeholder()] + cp.skip(1) =~= cp);
}

/// An attribute as the reader produces it: its body is bytes, as many as its length says.
pub open spec fn raw_attribute_wf(a: SpecAttributeInfo) -> bool {
    a.info matches SpecAttribute::Custom(b) && b.len() == a.attribute_length
}

impl Codec for AttributeInfo {
    open spec fn spec_wf(v: SpecAttributeInfo) -> bool {
        raw_attribute_wf(v)
    }

    proof fn lemma_roundtrip(v: SpecAttributeInfo, rest: Seq<u8>) {
        let w = attribute_info_bytes(v);
        let b = w + rest;
        if let SpecAttribute::Custom(body) = v.info {
            lemma_u16_bytes(v.attribute_name_index);
            lemma_u32_bytes(v.attribute_length);
            assert(w =~= u16_bytes(v.attribute_name_index) + u32_bytes(v.attribute_length) + body);
            assert(b[0] == w[0] && b[1] == w[1] && b[2] == w[2] && b[3] == w[3] && b[4] == w[4] && b[5] == w[5]);
            assert(b.subrange(6, 6 + v.attribute_length) =~= body);
        }
    }
}

/// A member as the reader produces it: the count matches, and its attributes are bytes.
pub open spec fn raw_member_wf(m: SpecMemberInfo) -> bool {
    m.attributes.len() == m.attributes_count && all_wf::<AttributeInfo>(m.attributes)
}

/// A member reads back as itself.
pub proof fn lemma_member_roundtrip(m: SpecMemberInfo, rest: Seq<u8>)
    requires
        raw_member_wf(m),
    ensures
        spec_read_member(member_bytes(m) + rest) == Parsed::Done(m, member_bytes(m).len()),
{
    let wa = attribute_infos_bytes(m.attributes);
    lemma_attribute_infos_bytes(m.attributes);
    let b = member_bytes(m) + rest;
    lemma_u16_bytes(m.access_flags);
    lemma_u16_bytes(m.name_index);
    lemma_u16_bytes(m.descriptor_index);
    lemma_u16_bytes(m.attributes_count);
    assert(b[0] == u16_bytes(m.access_flags)[0] && b[1] == u16_bytes(m.access_flags)[1]);
    assert(b[2] == u16_bytes(m.name_index)[0] && b[3] == u16_bytes(m.name_index)[1]);
    assert(b[4] == u16_bytes(m.descriptor_index)[0] && b[5] == u16_bytes(m.descriptor_index)[1]);
    assert(b[6] == u16_bytes(m.attributes_count)[0] && b[7] == u16_bytes(m.attributes_count)[1]);
    assert(b.skip(8) =~= wa + rest);
    lemma_vec_roundtrip::<AttributeInfo>(m.attributes, rest);
}

impl Codec for FieldInfo {
    open spec fn spec_wf(v: SpecMemberInfo) -> bool {
        raw_member_wf(v)
    }

    proof fn lemma_roundtrip(v: SpecMemberInfo, rest: Seq<u8>) {
        lemma_member_roundtrip(v, rest);
    }
}

impl Codec for MethodInfo {
    open spec fn spec_wf(v: SpecMemberInfo) -> bool {
        raw_member_wf(v)
    }

    proof fn lemma_roundtrip(v: SpecMemberInfo, rest: Seq<u8>) {
        lemma_member_roundtrip(v, rest);
    }
}

/// A class file as the reader produces it before reading attribute bodies: a well-formed
/// constant pool, counts that match their lists, and every attribute kept as bytes.
pub open spec fn raw_class_file_wf(cf: SpecClassFile) -> bool {
    &&& cp_wf(cf.constant_pool, cf.constant_pool_count)
    &&& cf.interfaces.len() == cf.interfaces_count
    &&& cf.fields.len() == cf.fields_count
    &&& all_wf::<FieldInfo>(cf.fields)
    &&& cf.methods.len() == cf.methods_count
    &&& all_wf::<MethodInfo>(cf.methods)
    &&& cf.attributes.len() == cf.attributes_count
    &&& all_wf::<AttributeInfo>(cf.attributes)
}

/// The bytes before the constant pool.
pub open spec fn class_head_bytes(cf: SpecClassFile) -> Seq<u8> {
    u32_bytes(cf.magic) + u16_bytes(cf.minor_version) + u16_bytes(cf.major_version) + u16_bytes(
        cf.constant_pool_count,
    )
}

/// The bytes after the constant pool, followed by `rest`.
pub open spec fn class_tail_bytes(cf: SpecClassFile, rest: Seq<u8>) -> Seq<u8> {
    let wi = spec_write_vec::<u16>(cf.interfaces);
    let wf = spec_write_vec::<FieldInfo>(cf.fields);
    let wm = spec_write_vec::<MethodInfo>(cf.methods);
    let wa = spec_write_vec::<AttributeInfo>(cf.attributes);
    let t3 = u16_bytes(cf.attributes_count) + wa + rest;
    let t2 = u16_bytes(cf.methods_count) + wm + t3;
    let t1 = u16_bytes(cf.fields_count) + wf + t2;
    let t0 = u16_bytes(cf.interfaces_count) + wi + t1;
    u16_bytes(cf.access_flags) + u16_bytes(cf.this_class) + u16_bytes(cf.super_class) + t0
}

/// A class file's bytes, then `rest`, are its head, its constant pool, then its tail and `rest`.
#[verifier::spinoff_prover]
pub proof fn lemma_class_bytes_split(cf: SpecClassFile, rest: Seq<u8>)
    ensures
        class_file_bytes(cf) + rest == class_head_bytes(cf) + (cp_bytes(cf.constant_pool) + class_tail_bytes(
            cf,
            rest,
        )),
{
    lemma_attribute_infos_bytes(cf.attributes);
    assert(class_file_bytes(cf) + rest =~= class_head_bytes(cf) + (cp_bytes(cf.constant_pool)
        + class_tail_bytes(cf, rest)));
}

/// Writing a class file whose attribute bodies are bytes, and reading it back without
/// reading the bodies, gives the class file and takes exactly its bytes.
#[verifier::spinoff_prover]
pub proof fn lemma_raw_class_file_roundtrip(cf: SpecClassFile, rest: Seq<u8>)
    requires
        raw_class_file_wf(cf),
    ensures
        spec_read_raw_class_file(class_file_bytes(cf) + rest) == Parsed::Done(cf, class_file_bytes(cf).len()),
{
    let head = class_head_bytes(cf);
    let wcp = cp_bytes(cf.constant_pool);
    let tail = class_tail_bytes(cf, rest);
    lemma_class_bytes_split(cf, rest);
    lemma_class_bytes_split(cf, Seq::empty());
    assert(class_file_bytes(cf) + Seq::<u8>::empty() =~= class_file_bytes(cf));
    let b = head + (wcp + tail);
    lemma_u32_bytes(cf.magic);
    lemma_u16_bytes(cf.minor_version);
    lemma_u16_bytes(cf.major_version);
    lemma_u16_bytes(cf.constant_pool_count);
    assert(head.len() == 10);
    assert(b[0] == head[0] && b[1] == head[1] && b[2] == head[2] && b[3] == head[3]);
    assert(b[4] == head[4] && b[5] == head[5] && b[6] == head[6] && b[7] == head[7]);
    assert(b[8] == head[8] && b[9] == head[9]);
    assert(head[8] == u16_bytes(cf.constant_pool_count)[0] && head[9] == u16_bytes(cf.constant_pool_count)[1]);
    assert(head[0] == u32_bytes(cf.magic)[0] && head[3] == u32_bytes(cf.magic)[3]);
    assert(head[1] == u32_bytes(cf.magic)[1] && head[2] == u32_bytes(cf.magic)[2]);
    assert(head[4] == u16_bytes(cf.minor_version)[0] && head[5] == u16_bytes(cf.minor_version)[1]);
    assert(head[6] == u16_bytes(cf.major_version)[0] && head[7] == u16_bytes(cf.major_version)[1]);
    assert(b.skip(10) =~= wcp + tail);
    lemma_cp_roundtrip(cf.constant_pool, cf.constant_pool_count, tail);
    assert(b.skip(10 + wcp.len() as int) =~= tail);
    lemma_class_tail_roundtrip(cf, rest);
    assert(tail.len() - rest.len() + 10 + wcp.len() == class_file_bytes(cf).len());
}

/// The part of a class file after its constant pool reads back as it was.
pub proof fn lemma_class_tail_roundtrip(cf: SpecClassFile, rest: Seq<u8>)
    requires
        raw_class_file_wf(cf),
    ensures
        ({
            let wi = spec_write_vec::<u16>(cf.interfaces);
            let wf = spec_write_vec::<FieldInfo>(cf.fields);
            let wm = spec_write_vec::<MethodInfo>(cf.methods);
            let wa = spec_write_vec::<AttributeInfo>(cf.attributes);
            let t3 = u16_bytes(cf.attributes_count) + wa + rest;
            let t2 = u16_bytes(cf.methods_count) + wm + t3;
            let t1 = u16_bytes(cf.fields_count) + wf + t2;
            let tail = class_tail_bytes(cf, rest);
            spec_read_class_tail(tail) matches Parsed::Done(t, n) && n == tail.len() - rest.len()
                && t.access_flags == cf.access_flags && t.this_class == cf.this_class && t.super_class
                == cf.super_class && t.interfaces == (cf.interfaces_count, cf.interfaces) && t.fields == (
            cf.fields_count, cf.fields) && t.methods == (cf.methods_count, cf.methods) && t.attributes == (
            cf.attributes_count, cf.attributes)
        }),
{
    reveal(spec_read_class_tail);
    let wi = spec_write_vec::<u16>(cf.interfaces);
    let wf = spec_write_vec::<FieldInfo>(cf.fields);
    let wm = spec_write_vec::<MethodInfo>(cf.methods);
    let wa = spec_write_vec::<AttributeInfo>(cf.attributes);
    let t3 = u16_bytes(cf.attributes_count) + wa + rest;
    let t2 = u16_bytes(cf.methods_count) + wm + t3;
    let t1 = u16_bytes(cf.fields_count) + wf + t2;
    let t0 = u16_bytes(cf.interfaces_count) + wi + t1;
    let tail = u16_bytes(cf.access_flags) + u16_bytes(cf.this_class) + u16_bytes(cf.super_class) + t0;
    lemma_u16_bytes(cf.access_flags);
    lemma_u16_bytes(cf.this_class);
    lemma_u16_bytes(cf.super_class);
    assert(tail[0] == u16_bytes(cf.access_flags)[0] && tail[1] == u16_bytes(cf.access_flags)[1]);
    assert(tail[2] == u16_bytes(cf.this_class)[0] && tail[3] == u16_bytes(cf.this_class)[1]);
    assert(tail[4] == u16_bytes(cf.super_class)[0] && tail[5] == u16_bytes(cf.super_class)[1]);
    assert(all_wf::<u16>(cf.interfaces));
    assert(tail.skip(6) =~= t0);
    lemma_counted_roundtrip::<u16>(cf.interfaces_count, cf.interfaces, t1);
    assert(t0 =~= u16_bytes(cf.interfaces_count) + wi + t1);
    assert(tail.skip(6 + 2 + wi.len() as int) =~= t1);
    lemma_counted_roundtrip::<FieldInfo>(cf.fields_count, cf.fields, t2);
    assert(tail.skip(6 + 2 + wi.len() as int + 2 + wf.len() as int) =~= t2);
    lemma_counted_roundtrip::<MethodInfo>(cf.methods_count, cf.methods, t3);
    assert(tail.skip(6 + 2 + wi.len() as int + 2 + wf.len() as int + 2 + wm.len() as int) =~= t3);
    lemma_counted_roundtrip::<AttributeInfo>(cf.attributes_count, cf.attributes, rest);
}

} // verus!
