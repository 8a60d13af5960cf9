//! Writing what was read gives back the bytes read, for a class file read with its
//! attribute bodies kept as bytes.

use crate::jvms::attr::SpecAttribute;
use crate::jvms::element::{AttributeInfo, FieldInfo, MethodInfo, SpecCPInfo, SpecClassFile, SpecConst, SpecMemberInfo};
use crate::jvms::read::bytes::{be_u16, be_u32, lemma_read_vec_len, spec_read_vec, FromReadContext, Parsed};
use crate::jvms::read::jvms_reader::{
    SpecClassTail, cp_placeholder, cp_slot_entries, cp_slots, is_known_const_tag, lemma_counted_len, spec_cp_entries,
    spec_read_class_tail, spec_read_const, spec_read_counted, spec_read_cp, spec_read_member,
    spec_read_raw_attribute, spec_read_raw_class_file,
};
use crate::jvms::write::bytes::{spec_write_vec, u16_bytes, u32_bytes, FromWriteContext};
use crate::jvms::write::jvms_writer::{
    attribute_info_bytes, attribute_infos_bytes, class_file_bytes, const_body_bytes, cp_bytes, cp_entries_bytes,
    entry_slots, lemma_attribute_infos_bytes, member_bytes,
};
use vstd::prelude::*;

verus! {

/// Two bytes read as a `u16` are written back as themselves.
pub proof fn lemma_u16_reread(a: u8, b: u8)
    ensures
        u16_bytes(be_u16(a, b)) == seq![a, b],
{
    let v = be_u16(a, b);
    assert(v == a as int * 256 + b as int);
    assert(v / 256 == a && v % 256 == b) by (nonlinear_arith)
        requires
            v == a as int * 256 + b as int,
            0 <= a < 256,
            0 <= b < 256,
    ;
    assert(u16_bytes(v) =~= seq![a, b]);
}

/// Four bytes read as a `u32` are written back as themselves.
pub proof fn lemma_u32_reread(a: u8, b: u8, c: u8, d: u8)
    ensures
        u32_bytes(be_u32(a, b, c, d)) == seq![a, b, c, d],
{
    let v = be_u32(a, b, c, d);
    assert(v == a as int * 16777216 + b as int * 65536 + c as int * 256 + d as int);
    assert(v / 16777216 == a && v / 65536 % 256 == b && v / 256 % 256 == c && v % 256 == d) by (nonlinear_arith)
        requires
            v == a as int * 16777216 + b as int * 65536 + c as int * 256 + d as int,
            0 <= a < 256,
            0 <= b < 256,
            0 <= c < 256,
            0 <= d < 256,
    ;
    assert(u32_bytes(v) =~= seq![a, b, c, d]);
}

/// Whether every successful read of a `T` is written back as the bytes it took.
pub open spec fn rereads<T: FromReadContext + FromWriteContext>() -> bool {
    forall|s: Seq<u8>|
        #![trigger T::spec_read(s)]
        T::spec_read(s) matches Parsed::Done(v, k) ==> T::spec_write(v) == s.take(k as int)
}

/// Values read one after another are written back as the bytes they took.
pub proof fn lemma_read_vec_reread<T: FromReadContext + FromWriteContext>(s: Seq<u8>, n: nat)
    requires
        rereads::<T>(),
    ensures
        spec_read_vec::<T>(s, n) matches Parsed::Done(vs, m) ==> spec_write_vec::<T>(vs) == s.take(m as int),
    decreases n,
{
    if n > 0 {
        lemma_read_vec_reread::<T>(s, (n - 1) as nat);
        lemma_read_vec_len::<T>(s, (n - 1) as nat);
        if let Parsed::Done(vs, m) = spec_read_vec::<T>(s, (n - 1) as nat) {
            T::lemma_read_len(s.skip(m as int));
            if let Parsed::Done(v, k) = T::spec_read(s.skip(m as int)) {
                assert(vs.push(v).drop_last() =~= vs);
                assert(s.take(m as int) + s.skip(m as int).take(k as int) =~= s.take((m + k) as int));
            }
        }
    } else {
        assert(s.take(0) =~= Seq::<u8>::empty());
    }
}

/// `u16` values reread.
pub proof fn lemma_u16_rereads()
    ensures
        rereads::<u16>(),
{
    assert forall|s: Seq<u8>|
        #[trigger] u16::spec_read(s) matches Parsed::Done(v, k) ==> u16::spec_write(v) == s.take(k as int) by {
        if s.len() >= 2 {
            lemma_u16_reread(s[0], s[1]);
            assert(s.take(2) =~= seq![s[0], s[1]]);
        }
    }
}

/// An attribute read with its body kept as bytes is written back as the bytes it took.
pub proof fn lemma_raw_attribute_rereads()
    ensures
        rereads::<AttributeInfo>(),
{
    assert forall|s: Seq<u8>|
        #[trigger] AttributeInfo::spec_read(s) matches Parsed::Done(v, k) ==> AttributeInfo::spec_write(v) == s.take(
            k as int,
        ) by {
        if let Parsed::Done(v, k) = AttributeInfo::spec_read(s) {
            lemma_u16_reread(s[0], s[1]);
            lemma_u32_reread(s[2], s[3], s[4], s[5]);
            let len = be_u32(s[2], s[3], s[4], s[5]);
            assert(attribute_info_bytes(v) =~= seq![s[0], s[1]] + seq![s[2], s[3], s[4], s[5]] + s.subrange(6, 6 + len));
            assert(s.take(k as int) =~= seq![s[0], s[1]] + seq![s[2], s[3], s[4], s[5]] + s.subrange(6, 6 + len));
        }
    }
}

/// A member read with its attribute bodies kept as bytes is written back as the bytes it took.
pub proof fn lemma_member_reread(s: Seq<u8>)
    ensures
        spec_read_member(s) matches Parsed::Done(v, k) ==> member_bytes(v) == s.take(k as int),
{
    if s.len() >= 8 {
        let count = be_u16(s[6], s[7]);
        lemma_raw_attribute_rereads();
        lemma_read_vec_reread::<AttributeInfo>(s.skip(8), count as nat);
        lemma_read_vec_len::<AttributeInfo>(s.skip(8), count as nat);
        if let Parsed::Done(attrs, n) = spec_read_vec::<AttributeInfo>(s.skip(8), count as nat) {
            lemma_attribute_infos_bytes(attrs);
            lemma_u16_reread(s[0], s[1]);
            lemma_u16_reread(s[2], s[3]);
            lemma_u16_reread(s[4], s[5]);
            lemma_u16_reread(s[6], s[7]);
            assert(s.take((8 + n) as int) =~= seq![s[0], s[1]] + seq![s[2], s[3]] + seq![s[4], s[5]] + seq![s[6], s[7]]
                + s.skip(8).take(n as int));
        }
    }
}

/// Fields and methods reread.
pub proof fn lemma_members_reread()
    ensures
        rereads::<FieldInfo>(),
        rereads::<MethodInfo>(),
{
    assert forall|s: Seq<u8>|
        #[trigger] FieldInfo::spec_read(s) matches Parsed::Done(v, k) ==> FieldInfo::spec_write(v) == s.take(k as int) by {
        lemma_member_reread(s);
    }
    assert forall|s: Seq<u8>|
        #[trigger] MethodInfo::spec_read(s) matches Parsed::Done(v, k) ==> MethodInfo::spec_write(v) == s.take(
            k as int,
        ) by {
        lemma_member_reread(s);
    }
}

/// The body of a constant read with tag `tag` is written back as the bytes it took.
pub proof fn lemma_const_reread(s: Seq<u8>, tag: u8)
    ensures
        spec_read_const(s, tag) matches Parsed::Done(c, k) ==> const_body_bytes(c) == s.take(k as int),
{
    if let Parsed::Done(c, k) = spec_read_const(s, tag) {
        lemma_u16_reread(s[0], s[1]);
        if tag == 1 {
            let length = be_u16(s[0], s[1]);
            assert(s.take(k as int) =~= seq![s[0], s[1]] + s.subrange(2, 2 + length));
        } else {
            if k >= 3 {
                lemma_u16_reread(s[1], s[2]);
            }
            if k >= 4 {
                lemma_u16_reread(s[2], s[3]);
                lemma_u32_reread(s[0], s[1], s[2], s[3]);
            }
            if k >= 8 {
                lemma_u32_reread(s[4], s[5], s[6], s[7]);
            }
            assert(const_body_bytes(c) =~= s.take(k as int));
        }
    }
}

/// Constant-pool entries read for `slots` slots are written back as the bytes they took:
/// the unusable slot after a `Long` or `Double` is not written, as it was not read.
pub proof fn lemma_cp_entries_reread(s: Seq<u8>, slots: nat)
    ensures
        spec_cp_entries(s, slots) matches Parsed::Done(es, m) ==> cp_entries_bytes(es) == s.take(m as int),
    decreases slots,
{
    if slots > 0 && s.len() >= 1 {
        let tag = s[0];
        if let Parsed::Done(c, k) = spec_read_const(s.skip(1), tag) {
            if slots >= cp_slots(tag) {
                let t = s.skip((1 + k) as int);
                lemma_cp_entries_reread(t, (slots - cp_slots(tag)) as nat);
                lemma_const_reread(s.skip(1), tag);
                crate::jvms::read::jvms_reader::lemma_cp_entries_len(t, (slots - cp_slots(tag)) as nat);
                if let Parsed::Done(rest, m) = spec_cp_entries(t, (slots - cp_slots(tag)) as nat) {
                    let head = cp_slot_entries(tag, c);
                    let es = head + rest;
                    assert(es[0] == SpecCPInfo { tag, info: c });
                    assert(entry_slots(es[0], es.len()) == head.len());
                    assert(es.skip(head.len() as int) =~= rest);
                    assert(s.take((1 + k + m) as int) =~= seq![tag] + s.skip(1).take(k as int) + t.take(m as int));
                }
            }
        }
    }
}

/// A count and that many values, read, are written back as the bytes they took.
pub proof fn lemma_counted_reread<T: FromReadContext + FromWriteContext>(c: Seq<u8>)
    requires
        rereads::<T>(),
    ensures
        spec_read_counted::<T>(c) matches Parsed::Done(v, m) ==> u16_bytes(v.0) + spec_write_vec::<T>(v.1) == c.take(
            m as int,
        ),
{
    reveal(spec_read_counted);
    if c.len() >= 2 {
        lemma_read_vec_reread::<T>(c.skip(2), be_u16(c[0], c[1]) as nat);
        lemma_read_vec_len::<T>(c.skip(2), be_u16(c[0], c[1]) as nat);
        lemma_u16_reread(c[0], c[1]);
        if let Parsed::Done(v, m) = spec_read_counted::<T>(c) {
            assert(c.take(m as int) =~= seq![c[0], c[1]] + c.skip(2).take(m - 2));
        }
    }
}

/// The bytes of the part of a class file after its constant pool.
pub open spec fn tail_bytes(t: SpecClassTail) -> Seq<u8> {
    u16_bytes(t.access_flags) + u16_bytes(t.this_class) + u16_bytes(t.super_class) + (u16_bytes(t.interfaces.0)
        + spec_write_vec::<u16>(t.interfaces.1)) + (u16_bytes(t.fields.0) + spec_write_vec::<FieldInfo>(t.fields.1))
        + (u16_bytes(t.methods.0) + spec_write_vec::<MethodInfo>(t.methods.1)) + (u16_bytes(t.attributes.0)
        + spec_write_vec::<AttributeInfo>(t.attributes.1))
}

/// The part of a class file after its constant pool, read, is written back as the bytes
/// it took.
#[verifier::rlimit(50)]
pub proof fn lemma_tail_reread(t: Seq<u8>)
    ensures
        spec_read_class_tail(t) matches Parsed::Done(v, n) ==> tail_bytes(v) == t.take(n as int),
{
    reveal(spec_read_class_tail);
    if t.len() >= 6 {
        lemma_u16_rereads();
        lemma_members_reread();
        lemma_raw_attribute_rereads();
        let c1 = t.skip(6);
        lemma_counted_len::<u16>(c1);
        lemma_counted_reread::<u16>(c1);
        if let Parsed::Done(_, m1) = spec_read_counted::<u16>(c1) {
            let p1: int = 6 + m1 as int;
            let c2 = t.skip(p1);
            lemma_counted_len::<FieldInfo>(c2);
            lemma_counted_reread::<FieldInfo>(c2);
            if let Parsed::Done(_, m2) = spec_read_counted::<FieldInfo>(c2) {
                let p2: int = p1 + m2;
                let c3 = t.skip(p2);
                lemma_counted_len::<MethodInfo>(c3);
                lemma_counted_reread::<MethodInfo>(c3);
                if let Parsed::Done(_, m3) = spec_read_counted::<MethodInfo>(c3) {
                    let p3: int = p2 + m3;
                    let c4 = t.skip(p3);
                    lemma_counted_len::<AttributeInfo>(c4);
                    lemma_counted_reread::<AttributeInfo>(c4);
                    if let Parsed::Done(_, m4) = spec_read_counted::<AttributeInfo>(c4) {
                        lemma_u16_reread(t[0], t[1]);
                        lemma_u16_reread(t[2], t[3]);
                        lemma_u16_reread(t[4], t[5]);
                        assert(t.take(p3 + m4) =~= seq![t[0], t[1]] + seq![t[2], t[3]] + seq![t[4], t[5]] + c1.take(
                            m1 as int,
                        ) + c2.take(m2 as int) + c3.take(m3 as int) + c4.take(m4 as int));
                    }
                }
            }
        }
    }
}

/// The bytes of a class file whose part after the constant pool is `t`: its header, its
/// constant pool, then the bytes of `t`.
proof fn lemma_class_file_bytes_parts(cf: SpecClassFile, t: SpecClassTail)
    requires
        cf.access_flags == t.access_flags,
        cf.this_class == t.this_class,
        cf.super_class == t.super_class,
        cf.interfaces_count == t.interfaces.0,
        cf.interfaces == t.interfaces.1,
        cf.fields_count == t.fields.0,
        cf.fields == t.fields.1,
        cf.methods_count == t.methods.0,
        cf.methods == t.methods.1,
        cf.attributes_count == t.attributes.0,
        cf.attributes == t.attributes.1,
    ensures
        class_file_bytes(cf) == u32_bytes(cf.magic) + u16_bytes(cf.minor_version) + u16_bytes(cf.major_version)
            + u16_bytes(cf.constant_pool_count) + cp_bytes(cf.constant_pool) + tail_bytes(t),
{
    lemma_attribute_infos_bytes(cf.attributes);
    assert(class_file_bytes(cf) =~= u32_bytes(cf.magic) + u16_bytes(cf.minor_version) + u16_bytes(cf.major_version)
        + u16_bytes(cf.constant_pool_count) + cp_bytes(cf.constant_pool) + tail_bytes(t));
}

/// A class file read with its attribute bodies kept as bytes is written back as the
/// bytes it took: writing what was read gives the bytes read.
#[verifier::rlimit(50)]
pub proof fn lemma_raw_class_file_reread(s: Seq<u8>)
    ensures
        spec_read_raw_class_file(s) matches Parsed::Done(cf, n) ==> class_file_bytes(cf) == s.take(n as int),
{
    if let Parsed::Done(cf, n) = spec_read_raw_class_file(s) {
        let count = be_u16(s[8], s[9]);
        lemma_cp_entries_reread(s.skip(10), (count - 1) as nat);
        crate::jvms::read::jvms_reader::lemma_cp_len(s.skip(10), count as nat);
        let cp = spec_read_cp(s.skip(10), count as nat)->Done_0;
        let n1 = spec_read_cp(s.skip(10), count as nat)->Done_1;
        assert(cp.skip(1) =~= spec_cp_entries(s.skip(10), (count - 1) as nat)->Done_0);
        assert(cp_bytes(cp) == s.skip(10).take(n1 as int));
        let t = s.skip(10 + n1 as int);
        lemma_tail_reread(t);
        crate::jvms::read::jvms_reader::lemma_class_tail_len(t);
        let tail = spec_read_class_tail(t)->Done_0;
        let n2 = spec_read_class_tail(t)->Done_1;
        lemma_class_file_bytes_parts(cf, tail);
        lemma_u32_reread(s[0], s[1], s[2], s[3]);
        lemma_u16_reread(s[4], s[5]);
        lemma_u16_reread(s[6], s[7]);
        lemma_u16_reread(s[8], s[9]);
        assert(s.take(n as int) =~= seq![s[0], s[1], s[2], s[3]] + seq![s[4], s[5]] + seq![s[6], s[7]] + seq![
            s[8],
            s[9],
        ] + s.skip(10).take(n1 as int) + t.take(n2 as int));
    }
}

} // verus!
