//! Reading the structures of a class file as stored; attribute bodies stay bytes.

use crate::err::{AsmErr, AsmResult};
use crate::jvms::attr::{attribute_info_view, Attribute, SpecAttribute};
use crate::jvms::element::{
    AttributeInfo, CPInfo, ClassFile, Const, FieldInfo, MethodInfo, SpecAttributeInfo, SpecCPInfo,
    SpecClassFile, SpecConst, SpecMemberInfo,
};
use crate::jvms::read::bytes::{
    be_u16, be_u32, lemma_read_vec_len, read_option, read_result, spec_read_vec, FromReadContext, Parsed,
    ReadContext,
};
use vstd::prelude::*;

verus! {

/// Prepends `acc`, which took `n` bytes, to what `p` read.
pub open spec fn prepend<T>(acc: Seq<T>, n: nat, p: Parsed<Seq<T>>) -> Parsed<Seq<T>> {
    match p {
        Parsed::Done(v, k) => Parsed::Done(acc + v, n + k),
        Parsed::Fail(e) => Parsed::Fail(e),
        Parsed::Abort => Parsed::Abort,
    }
}

/// Whether `tag` is a constant-pool tag that the reader knows.
pub open spec fn is_known_const_tag(tag: u8) -> bool {
    tag == 0 || tag == 1 || (3 <= tag <= 12) || (15 <= tag <= 20)
}

/// The size of the body of a constant with tag `tag`, other than `CONSTANT_Utf8`.
pub open spec fn const_body_size(tag: u8) -> nat {
    if tag == 0 {
        0
    } else if tag == 7 || tag == 8 || tag == 16 || tag == 19 || tag == 20 {
        2
    } else if tag == 15 {
        3
    } else if tag == 5 || tag == 6 {
        8
    } else {
        4
    }
}

/// The constant with tag `tag`, other than `CONSTANT_Utf8`, whose body starts `s`.
pub open spec fn const_from_body(tag: u8, s: Seq<u8>) -> SpecConst {
    let a = be_u16(s[0], s[1]);
    let b = be_u16(s[2], s[3]);
    if tag == 7 {
        SpecConst::Class { name_index: a }
    } else if tag == 9 {
        SpecConst::Field { class_index: a, name_and_type_index: b }
    } else if tag == 10 {
        SpecConst::Method { class_index: a, name_and_type_index: b }
    } else if tag == 11 {
        SpecConst::InterfaceMethod { class_index: a, name_and_type_index: b }
    } else if tag == 3 {
        SpecConst::Integer { bytes: be_u32(s[0], s[1], s[2], s[3]) }
    } else if tag == 4 {
        SpecConst::Float { bytes: be_u32(s[0], s[1], s[2], s[3]) }
    } else if tag == 5 {
        SpecConst::Long { high_bytes: be_u32(s[0], s[1], s[2], s[3]), low_bytes: be_u32(s[4], s[5], s[6], s[7]) }
    } else if tag == 6 {
        SpecConst::Double {
            high_bytes: be_u32(s[0], s[1], s[2], s[3]),
            low_bytes: be_u32(s[4], s[5], s[6], s[7]),
        }
    } else if tag == 12 {
        SpecConst::NameAndType { name_index: a, descriptor_index: b }
    } else if tag == 15 {
        SpecConst::MethodHandle { reference_kind: s[0], reference_index: be_u16(s[1], s[2]) }
    } else if tag == 16 {
        SpecConst::MethodType { descriptor_index: a }
    } else if tag == 17 {
        SpecConst::Dynamic { bootstrap_method_attr_index: a, name_and_type_index: b }
    } else if tag == 18 {
        SpecConst::InvokeDynamic { bootstrap_method_attr_index: a, name_and_type_index: b }
    } else if tag == 19 {
        SpecConst::Module { name_index: a }
    } else if tag == 20 {
        SpecConst::Package { name_index: a }
    } else if tag == 8 {
        SpecConst::String { string_index: a }
    } else {
        SpecConst::Invalid
    }
}

/// What reading the body of a constant with tag `tag` from the front of `s` gives.
pub open spec fn spec_read_const(s: Seq<u8>, tag: u8) -> Parsed<SpecConst> {
    if tag == 1 {
        if s.len() < 2 {
            Parsed::Fail(AsmErr::OutOfRange)
        } else {
            let length = be_u16(s[0], s[1]);
            if s.len() < 2 + length {
                Parsed::Fail(AsmErr::OutOfRange)
            } else {
                Parsed::Done(SpecConst::Utf8 { length, bytes: s.subrange(2, 2 + length) }, (2 + length) as nat)
            }
        }
    } else if !is_known_const_tag(tag) {
        Parsed::Fail(AsmErr::UnknownConstTag(tag))
    } else if s.len() < const_body_size(tag) {
        Parsed::Fail(AsmErr::OutOfRange)
    } else {
        Parsed::Done(const_from_body(tag, s), const_body_size(tag))
    }
}

/// How many pool slots an entry with tag `tag` takes: two for `Long` and `Double`, else one.
pub open spec fn cp_slots(tag: u8) -> nat {
    if tag == 5 || tag == 6 {
        2
    } else {
        1
    }
}

/// The pool entries that the constant `c` with tag `tag` fills: the constant itself, and
/// after a `Long` or `Double` the slot n+1 that is valid but unusable (JVMS 4.4.5), held
/// as the placeholder, so that every entry stands at its index in the pool.
pub open spec fn cp_slot_entries(tag: u8, c: SpecConst) -> Seq<SpecCPInfo> {
    if cp_slots(tag) == 2 {
        seq![SpecCPInfo { tag, info: c }, cp_placeholder()]
    } else {
        seq![SpecCPInfo { tag, info: c }]
    }
}

/// What reading constant-pool entries that fill `slots` slots gives: one entry per slot.
/// It aborts where a two-slot entry would overrun the count.
pub open spec fn spec_cp_entries(s: Seq<u8>, slots: nat) -> Parsed<Seq<SpecCPInfo>>
    decreases slots,
{
    if slots == 0 {
        Parsed::Done(Seq::empty(), 0)
    } else if s.len() < 1 {
        Parsed::Fail(AsmErr::OutOfRange)
    } else {
        let tag = s[0];
        match spec_read_const(s.skip(1), tag) {
            Parsed::Done(c, k) => if slots < cp_slots(tag) {
                Parsed::Abort
            } else {
                prepend(
                    cp_slot_entries(tag, c),
                    1 + k,
                    spec_cp_entries(s.skip((1 + k) as int), (slots - cp_slots(tag)) as nat),
                )
            },
            Parsed::Fail(e) => Parsed::Fail(e),
            Parsed::Abort => Parsed::Abort,
        }
    }
}

/// The placeholder at index 0 of every constant pool.
pub open spec fn cp_placeholder() -> SpecCPInfo {
    SpecCPInfo { tag: 0, info: SpecConst::Invalid }
}

/// What reading a constant pool of `count` slots gives: the placeholder at index 0, then
/// the entries, one per slot. A count of 0 aborts.
pub open spec fn spec_read_cp(s: Seq<u8>, count: nat) -> Parsed<Seq<SpecCPInfo>> {
    if count == 0 {
        Parsed::Abort
    } else {
        prepend(seq![cp_placeholder()], 0, spec_cp_entries(s, (count - 1) as nat))
    }
}

impl Const {
    /// Reads the body of a constant whose tag `tag` was read already.
    pub fn from_context(context: &mut ReadContext, tag: u8) -> (r: AsmResult<Const>)
        requires
            old(context).wf(),
        ensures
            final(context).wf(),
            final(context).bytes@ == old(context).bytes@,
            read_result::<Const>(spec_read_const(old(context).rest(), tag), r, old(context).index, final(context).index),
            !is_known_const_tag(tag) ==> final(context).index == old(context).index,
    {
        let ghost s = context.rest();
        match tag {
            0 /* CONSTANT_Invalid */ => Ok(Const::Invalid),
            7 /* CONSTANT_Class */ => {
                let name_index: u16 = context.read()?;
                Ok(Const::Class { name_index })
            },
            9 /* CONSTANT_Fieldref */ => {
                let class_index: u16 = context.read()?;
                let name_and_type_index: u16 = context.read()?;
                Ok(Const::Field { class_index, name_and_type_index })
            },
            10 /* CONSTANT_Methodref */ => {
                let class_index: u16 = context.read()?;
                let name_and_type_index: u16 = context.read()?;
                Ok(Const::Method { class_index, name_and_type_index })
            },
            11 /* CONSTANT_InterfaceMethodref */ => {
                let class_index: u16 = context.read()?;
                let name_and_type_index: u16 = context.read()?;
                Ok(Const::InterfaceMethod { class_index, name_and_type_index })
            },
            3 /* CONSTANT_Integer */ => {
                let bytes: u32 = context.read()?;
                Ok(Const::Integer { bytes })
            },
            4 /* CONSTANT_Float */ => {
                let bytes: u32 = context.read()?;
                Ok(Const::Float { bytes })
            },
            5 /* CONSTANT_Long */ => {
                let high_bytes: u32 = context.read()?;
                let low_bytes: u32 = context.read()?;
                Ok(Const::Long { high_bytes, low_bytes })
            },
            6 /* CONSTANT_Double */ => {
                let high_bytes: u32 = context.read()?;
                let low_bytes: u32 = context.read()?;
                Ok(Const::Double { high_bytes, low_bytes })
            },
            12 /* CONSTANT_NameAndType */ => {
                let name_index: u16 = context.read()?;
                let descriptor_index: u16 = context.read()?;
                Ok(Const::NameAndType { name_index, descriptor_index })
            },
            15 /* CONSTANT_MethodHandle */ => {
                let reference_kind: u8 = context.read()?;
                let reference_index: u16 = context.read()?;
                Ok(Const::MethodHandle { reference_kind, reference_index })
            },
            16 /* CONSTANT_MethodType */ => {
                let descriptor_index: u16 = context.read()?;
                Ok(Const::MethodType { descriptor_index })
            },
            17 /* CONSTANT_Dynamic */ => {
                let bootstrap_method_attr_index: u16 = context.read()?;
                let name_and_type_index: u16 = context.read()?;
                Ok(Const::Dynamic { bootstrap_method_attr_index, name_and_type_index })
            },
            18 /* CONSTANT_InvokeDynamic */ => {
                let bootstrap_method_attr_index: u16 = context.read()?;
                let name_and_type_index: u16 = context.read()?;
                Ok(Const::InvokeDynamic { bootstrap_method_attr_index, name_and_type_index })
            },
            19 /* CONSTANT_Module */ => {
                let name_index: u16 = context.read()?;
                Ok(Const::Module { name_index })
            },
            20 /* CONSTANT_Package */ => {
                let name_index: u16 = context.read()?;
                Ok(Const::Package { name_index })
            },
            8 /* CONSTANT_String */ => {
                let string_index: u16 = context.read()?;
                Ok(Const::String { string_index })
            },
            1 /* CONSTANT_Utf8 */ => {
                let length: u16 = context.read()?;
                proof {
                    assert(context.rest() =~= s.skip(2));
                }
                let bytes: Vec<u8> = read_bytes(context, length as usize)?;
                proof {
                    assert(s.skip(2).take(length as int) =~= s.subrange(2, 2 + length));
                }
                let c = Const::Utf8 { length, bytes };
                assert(c.deep_view() == SpecConst::Utf8 { length, bytes: s.subrange(2, 2 + length) });
                Ok(c)
            },
            _ => Err(AsmErr::UnknownConstTag(tag)),
        }
    }
}

/// Reads `n` bytes as they are.
pub fn read_bytes(context: &mut ReadContext, n: usize) -> (r: AsmResult<Vec<u8>>)
    requires
        old(context).wf(),
    ensures
        final(context).wf(),
        final(context).bytes@ == old(context).bytes@,
        n <= old(context).rest().len() ==> (r matches Ok(v) && v@ == old(context).rest().take(n as int)
            && final(context).index == old(context).index + n),
        n > old(context).rest().len() ==> r == Err::<Vec<u8>, AsmErr>(AsmErr::OutOfRange),
{
    if context.bytes.len() - context.index < n {
        return Err(AsmErr::OutOfRange);
    }
    let mut v: Vec<u8> = Vec::with_capacity(n);
    let start = context.index;
    let mut i: usize = 0;
    while i < n
        invariant
            context.wf(),
            context.bytes@ == old(context).bytes@,
            context.index == start,
            start == old(context).index,
            start + n <= context.bytes.len(),
            i <= n,
            v@ == context.bytes@.subrange(start as int, start + i),
        decreases n - i,
    {
        v.push(context.bytes[start + i]);
        proof {
            assert(v@ =~= context.bytes@.subrange(start as int, start + i + 1));
        }
        i = i + 1;
    }
    context.index = start + n;
    proof {
        assert(v@ =~= old(context).rest().take(n as int));
    }
    Ok(v)
}

/// Reading `n` bytes one at a time is taking the first `n` bytes.
pub proof fn lemma_read_vec_u8(s: Seq<u8>, n: nat)
    ensures
        spec_read_vec::<u8>(s, n) == (if n <= s.len() {
            Parsed::Done(s.take(n as int), n)
        } else {
            Parsed::<Seq<u8>>::Fail(AsmErr::OutOfRange)
        }),
    decreases n,
{
    if n == 0 {
        assert(s.take(0) =~= Seq::<u8>::empty());
    } else {
        lemma_read_vec_u8(s, (n - 1) as nat);
        if n <= s.len() {
            assert(s.take(n - 1).push(s.skip(n - 1)[0]) =~= s.take(n as int));
        }
    }
}

/// Reads a constant pool of `max_len` slots (the stored `constant_pool_count`): the
/// placeholder entry at index 0, then the entries; a `Long` or `Double` entry takes two
/// slots but is one entry of the result. It gives `None` where the count is 0 or a
/// two-slot entry overruns it.
pub fn cp_infos_from_context(context: &mut ReadContext, count: usize) -> (r: Option<AsmResult<Vec<CPInfo>>>)
    requires
        old(context).wf(),
    ensures
        final(context).wf(),
        final(context).bytes@ == old(context).bytes@,
        read_option::<Vec<CPInfo>>(spec_read_cp(old(context).rest(), count as nat), r, old(context).index, final(context).index),
        r matches Some(Ok(v)) ==> v@.len() == count,
{
    let ghost s = context.rest();
    let ghost start = context.index;
    proof {
        lemma_cp_count(s, count as nat);
    }
    if count == 0 {
        return None;
    }
    let mut max_len = count;
    let mut result: Vec<CPInfo> = Vec::new();
    result.push(CPInfo { tag: 0, info: Const::Invalid });
    max_len = max_len - 1;
    proof {
        assert(result.deep_view() =~= seq![cp_placeholder()]);
    }
    while max_len > 0
        invariant
            context.wf(),
            context.bytes@ == old(context).bytes@,
            context.index >= start,
            start == old(context).index,
            s == old(context).rest(),
            context.rest() == s.skip(context.index - start),
            spec_read_cp(s, count as nat) == prepend(
                result.deep_view(),
                (context.index - start) as nat,
                spec_cp_entries(context.rest(), max_len as nat),
            ),
        decreases max_len,
    {
        let ghost rest = context.rest();
        let ghost before = context.index;
        let ghost acc = result.deep_view();
        let tag: u8 = match context.read() {
            Ok(tag) => tag,
            Err(e) => {
                return Some(Err(e));
            },
        };
        proof {
            assert(context.rest() =~= rest.skip(1));
        }
        let info: Const = match Const::from_context(context, tag) {
            Ok(info) => info,
            Err(e) => {
                return Some(Err(e));
            },
        };
        proof {
            assert(context.rest() =~= rest.skip(1 + (context.index - before - 1)));
        }
        match tag {
            5 | 6 => /* CONSTANT_Long, CONSTANT_Double */ {
                if max_len < 2 {
                    return None;
                }
                max_len = max_len - 2;
            },
            _ => {
                max_len = max_len - 1;
            },
        }
        let ghost entries = cp_slot_entries(tag, info.deep_view());
        let two = tag == 5 || tag == 6;
        result.push(CPInfo { tag, info });
        if two {
            result.push(CPInfo { tag: 0, info: Const::Invalid });
        }
        proof {
            assert(result.deep_view() =~= acc + entries);
            assert(context.rest() == s.skip(context.index - start));
            let p = spec_cp_entries(context.rest(), max_len as nat);
            assert(prepend(acc, (before - start) as nat, prepend(entries, (context.index - before) as nat, p))
                == prepend(result.deep_view(), (context.index - start) as nat, p)) by {
                assert(acc + (entries + p->Done_0) =~= acc + entries + p->Done_0);
            }
        }
    }
    proof {
        assert(result.deep_view() + Seq::<SpecCPInfo>::empty() =~= result.deep_view());
    }
    Some(Ok(result))
}

/// What reading a `field_info` or `method_info` gives; its attributes stay bytes.
pub open spec fn spec_read_member(s: Seq<u8>) -> Parsed<SpecMemberInfo> {
    if s.len() < 8 {
        Parsed::Fail(AsmErr::OutOfRange)
    } else {
        let count = be_u16(s[6], s[7]);
        match spec_read_vec::<AttributeInfo>(s.skip(8), count as nat) {
            Parsed::Done(attributes, n) => Parsed::Done(
                SpecMemberInfo {
                    access_flags: be_u16(s[0], s[1]),
                    name_index: be_u16(s[2], s[3]),
                    descriptor_index: be_u16(s[4], s[5]),
                    attributes_count: count,
                    attributes,
                },
                8 + n,
            ),
            Parsed::Fail(e) => Parsed::Fail(e),
            Parsed::Abort => Parsed::Abort,
        }
    }
}

/// What reading an `attribute_info` gives: its name index, its length, and its body as bytes.
pub open spec fn spec_read_raw_attribute(s: Seq<u8>) -> Parsed<SpecAttributeInfo> {
    if s.len() < 6 {
        Parsed::Fail(AsmErr::OutOfRange)
    } else {
        let length = be_u32(s[2], s[3], s[4], s[5]);
        if s.len() - 6 < length {
            Parsed::Fail(AsmErr::OutOfRange)
        } else {
            Parsed::Done(
                SpecAttributeInfo {
                    attribute_name_index: be_u16(s[0], s[1]),
                    attribute_length: length,
                    info: SpecAttribute::Custom(s.subrange(6, 6 + length)),
                },
                (6 + length) as nat,
            )
        }
    }
}

pub struct MemberInfo {
    pub access_flags: u16,
    pub name_index: u16,
    pub descriptor_index: u16,
    pub attributes_count: u16,
    pub attributes: Vec<AttributeInfo>,
}

impl MemberInfo {
    pub open spec fn view_member(&self) -> SpecMemberInfo {
        SpecMemberInfo {
            access_flags: self.access_flags,
            name_index: self.name_index,
            descriptor_index: self.descriptor_index,
            attributes_count: self.attributes_count,
            attributes: self.attributes.deep_view(),
        }
    }
}

/// Reads the layout that `field_info` and `method_info` share.
pub fn member_from_context(context: &mut ReadContext) -> (r: AsmResult<MemberInfo>)
    requires
        old(context).wf(),
    ensures
        final(context).wf(),
        final(context).bytes@ == old(context).bytes@,
        match spec_read_member(old(context).rest()) {
            Parsed::Done(v, n) => r matches Ok(m) && m.view_member() == v && final(context).index == old(context).index + n,
            Parsed::Fail(e) => r == Err::<MemberInfo, AsmErr>(e),
            Parsed::Abort => false,
        },
{
    let ghost s = context.rest();
    let access_flags: u16 = context.read()?;
    let name_index: u16 = context.read()?;
    let descriptor_index: u16 = context.read()?;
    let attributes_count: u16 = context.read()?;
    proof {
        assert(context.rest() =~= s.skip(8));
        lemma_raw_attributes_never_abort(s.skip(8), attributes_count as nat);
    }
    let attributes: Vec<AttributeInfo> = context.read_vec(attributes_count as usize)?;
    Ok(MemberInfo { access_flags, name_index, descriptor_index, attributes_count, attributes })
}

/// Reading raw attributes never aborts.
pub proof fn lemma_raw_attributes_never_abort(s: Seq<u8>, n: nat)
    ensures
        !(spec_read_vec::<AttributeInfo>(s, n) is Abort),
    decreases n,
{
    if n > 0 {
        lemma_raw_attributes_never_abort(s, (n - 1) as nat);
    }
}

impl FromReadContext for FieldInfo {
    open spec fn spec_read(s: Seq<u8>) -> Parsed<SpecMemberInfo> {
        spec_read_member(s)
    }

    proof fn lemma_read_len(s: Seq<u8>) {
        if s.len() >= 8 {
            lemma_read_vec_len::<AttributeInfo>(s.skip(8), be_u16(s[6], s[7]) as nat);
        }
    }

    fn from_context(context: &mut ReadContext) -> (r: AsmResult<FieldInfo>) {
        let m = member_from_context(context)?;
        Ok(FieldInfo {
            access_flags: m.access_flags,
            name_index: m.name_index,
            descriptor_index: m.descriptor_index,
            attributes_count: m.attributes_count,
            attributes: m.attributes,
        })
    }
}

impl FromReadContext for MethodInfo {
    open spec fn spec_read(s: Seq<u8>) -> Parsed<SpecMemberInfo> {
        spec_read_member(s)
    }

    proof fn lemma_read_len(s: Seq<u8>) {
        if s.len() >= 8 {
            lemma_read_vec_len::<AttributeInfo>(s.skip(8), be_u16(s[6], s[7]) as nat);
        }
    }

    fn from_context(context: &mut ReadContext) -> (r: AsmResult<MethodInfo>) {
        let m = member_from_context(context)?;
        Ok(MethodInfo {
            access_flags: m.access_flags,
            name_index: m.name_index,
            descriptor_index: m.descriptor_index,
            attributes_count: m.attributes_count,
            attributes: m.attributes,
        })
    }
}

impl FromReadContext for AttributeInfo {
    /// Reads an attribute with its body kept as bytes ([Attribute::Custom]).
    open spec fn spec_read(s: Seq<u8>) -> Parsed<SpecAttributeInfo> {
        spec_read_raw_attribute(s)
    }

    proof fn lemma_read_len(s: Seq<u8>) {
    }

    fn from_context(context: &mut ReadContext) -> (r: AsmResult<AttributeInfo>) {
        let ghost s = context.rest();
        let attribute_name_index: u16 = context.read()?;
        let attribute_length: u32 = context.read()?;
        proof {
            assert(context.rest() =~= s.skip(6));
        }
        let attribute_vec: Vec<u8> = read_bytes(context, attribute_length as usize)?;
        proof {
            assert(s.skip(6).take(attribute_length as int) =~= s.subrange(6, 6 + attribute_length));
        }
        let ghost body = attribute_vec@;
        let info = Attribute::Custom(attribute_vec);
        let a = AttributeInfo { attribute_name_index, attribute_length, info };
        assert(a.deep_view() == SpecAttributeInfo {
            attribute_name_index,
            attribute_length,
            info: SpecAttribute::Custom(body),
        });
        Ok(a)
    }
}

} // verus!

verus! {

/// What reading a `u2` count and then that many values of type `T` gives.
#[verifier::opaque]
pub open spec fn spec_read_counted<T: FromReadContext>(s: Seq<u8>) -> Parsed<(u16, Seq<<T as DeepView>::V>)> {
    if s.len() < 2 {
        Parsed::Fail(AsmErr::OutOfRange)
    } else {
        let count = be_u16(s[0], s[1]);
        match spec_read_vec::<T>(s.skip(2), count as nat) {
            Parsed::Done(vs, n) => Parsed::Done((count, vs), 2 + n),
            Parsed::Fail(e) => Parsed::Fail(e),
            Parsed::Abort => Parsed::Abort,
        }
    }
}

/// Reads a `u2` count and then that many values of type `T`.
pub fn read_counted<T: FromReadContext>(context: &mut ReadContext) -> (r: AsmResult<(u16, Vec<T>)>)
    requires
        old(context).wf(),
        !(spec_read_counted::<T>(old(context).rest()) is Abort),
    ensures
        final(context).wf(),
        final(context).bytes@ == old(context).bytes@,
        match spec_read_counted::<T>(old(context).rest()) {
            Parsed::Done(v, n) => r matches Ok(x) && x.0 == v.0 && x.1.deep_view() == v.1
                && final(context).index == old(context).index + n,
            Parsed::Fail(e) => r == Err::<(u16, Vec<T>), AsmErr>(e),
            Parsed::Abort => false,
        },
{
    let ghost s = context.rest();
    proof {
        reveal(spec_read_counted);
    }
    let count: u16 = context.read()?;
    proof {
        assert(context.rest() =~= s.skip(2));
    }
    let vs: Vec<T> = context.read_vec(count as usize)?;
    Ok((count, vs))
}

/// The part of a class file after its constant pool.
pub struct SpecClassTail {
    pub access_flags: u16,
    pub this_class: u16,
    pub super_class: u16,
    pub interfaces: (u16, Seq<u16>),
    pub fields: (u16, Seq<SpecMemberInfo>),
    pub methods: (u16, Seq<SpecMemberInfo>),
    pub attributes: (u16, Seq<SpecAttributeInfo>),
}

/// What reading the part of a class file after its constant pool gives.
#[verifier::opaque]
pub open spec fn spec_read_class_tail(s: Seq<u8>) -> Parsed<SpecClassTail> {
    if s.len() < 6 {
        Parsed::Fail(AsmErr::OutOfRange)
    } else {
        match spec_read_counted::<u16>(s.skip(6)) {
            Parsed::Done(interfaces, n1) => {
                let p1: int = 6 + n1 as int;
                match spec_read_counted::<FieldInfo>(s.skip(p1)) {
                    Parsed::Done(fields, n2) => {
                        let p2: int = p1 + n2;
                        match spec_read_counted::<MethodInfo>(s.skip(p2)) {
                            Parsed::Done(methods, n3) => {
                                let p3: int = p2 + n3;
                                match spec_read_counted::<AttributeInfo>(s.skip(p3)) {
                                    Parsed::Done(attributes, n4) => Parsed::Done(
                                        SpecClassTail {
                                            access_flags: be_u16(s[0], s[1]),
                                            this_class: be_u16(s[2], s[3]),
                                            super_class: be_u16(s[4], s[5]),
                                            interfaces,
                                            fields,
                                            methods,
                                            attributes,
                                        },
                                        (p3 + n4) as nat,
                                    ),
                                    Parsed::Fail(e) => Parsed::Fail(e),
                                    Parsed::Abort => Parsed::Abort,
                                }
                            },
                            Parsed::Fail(e) => Parsed::Fail(e),
                            Parsed::Abort => Parsed::Abort,
                        }
                    },
                    Parsed::Fail(e) => Parsed::Fail(e),
                    Parsed::Abort => Parsed::Abort,
                }
            },
            Parsed::Fail(e) => Parsed::Fail(e),
            Parsed::Abort => Parsed::Abort,
        }
    }
}

/// What reading a whole class file gives; attribute bodies stay bytes.
pub open spec fn spec_read_raw_class_file(s: Seq<u8>) -> Parsed<SpecClassFile> {
    if s.len() < 10 {
        Parsed::Fail(AsmErr::OutOfRange)
    } else {
        let cp_count = be_u16(s[8], s[9]);
        match spec_read_cp(s.skip(10), cp_count as nat) {
            Parsed::Done(constant_pool, n1) => match spec_read_class_tail(s.skip(10 + n1 as int)) {
                Parsed::Done(t, n2) => Parsed::Done(
                    SpecClassFile {
                        magic: be_u32(s[0], s[1], s[2], s[3]),
                        minor_version: be_u16(s[4], s[5]),
                        major_version: be_u16(s[6], s[7]),
                        constant_pool_count: cp_count,
                        constant_pool,
                        access_flags: t.access_flags,
                        this_class: t.this_class,
                        super_class: t.super_class,
                        interfaces_count: t.interfaces.0,
                        interfaces: t.interfaces.1,
                        fields_count: t.fields.0,
                        fields: t.fields.1,
                        methods_count: t.methods.0,
                        methods: t.methods.1,
                        attributes_count: t.attributes.0,
                        attributes: t.attributes.1,
                    },
                    10 + n1 + n2,
                ),
                Parsed::Fail(e) => Parsed::Fail(e),
                Parsed::Abort => Parsed::Abort,
            },
            Parsed::Fail(e) => Parsed::Fail(e),
            Parsed::Abort => Parsed::Abort,
        }
    }
}

/// Reading members never aborts.
pub proof fn lemma_members_never_abort(s: Seq<u8>, n: nat)
    ensures
        !(spec_read_vec::<FieldInfo>(s, n) is Abort),
        !(spec_read_vec::<MethodInfo>(s, n) is Abort),
        !(spec_read_vec::<u16>(s, n) is Abort),
    decreases n,
{
    if n > 0 {
        lemma_members_never_abort(s, (n - 1) as nat);
        if let Parsed::Done(_, m) = spec_read_vec::<FieldInfo>(s, (n - 1) as nat) {
            lemma_raw_attributes_never_abort(s.skip(m as int).skip(8), be_u16(s.skip(m as int)[6], s.skip(m as int)[7]) as nat);
        }
        if let Parsed::Done(_, m) = spec_read_vec::<MethodInfo>(s, (n - 1) as nat) {
            lemma_raw_attributes_never_abort(s.skip(m as int).skip(8), be_u16(s.skip(m as int)[6], s.skip(m as int)[7]) as nat);
        }
    }
}

impl FromReadContext for ClassFile {
    /// Reads a class file with its attribute bodies kept as bytes.
    open spec fn spec_read(s: Seq<u8>) -> Parsed<SpecClassFile> {
        spec_read_raw_class_file(s)
    }

    proof fn lemma_read_len(s: Seq<u8>) {
        if s.len() >= 10 {
            let cp_count = be_u16(s[8], s[9]);
            lemma_cp_len(s.skip(10), cp_count as nat);
            if let Parsed::Done(_, n1) = spec_read_cp(s.skip(10), cp_count as nat) {
                lemma_class_tail_len(s.skip(10 + n1 as int));
            }
        }
    }

    fn from_context(context: &mut ReadContext) -> (r: AsmResult<ClassFile>) {
        match read_raw_class_file(context) {
            Some(r) => r,
            None => Err(AsmErr::OutOfRange),
        }
    }
}

/// Reads a class file with its attribute bodies kept as bytes. It gives `None` where the
/// constant pool cannot be read without a panic.
pub fn read_raw_class_file(context: &mut ReadContext) -> (r: Option<AsmResult<ClassFile>>)
    requires
        old(context).wf(),
    ensures
        final(context).wf(),
        final(context).bytes@ == old(context).bytes@,
        read_option::<ClassFile>(spec_read_raw_class_file(old(context).rest()), r, old(context).index, final(context).index),
{
    let ghost s = context.rest();
    let ghost start = context.index;
    let magic: u32 = match context.read() {
        Ok(v) => v,
        Err(e) => {
            return Some(Err(e));
        },
    };
    let minor_version: u16 = match context.read() {
        Ok(v) => v,
        Err(e) => {
            return Some(Err(e));
        },
    };
    let major_version: u16 = match context.read() {
        Ok(v) => v,
        Err(e) => {
            return Some(Err(e));
        },
    };
    let constant_pool_count: u16 = match context.read() {
        Ok(v) => v,
        Err(e) => {
            return Some(Err(e));
        },
    };
    proof {
        assert(context.rest() =~= s.skip(10));
    }
    let constant_pool: Vec<CPInfo> = match cp_infos_from_context(context, constant_pool_count as usize) {
        Some(Ok(v)) => v,
        Some(Err(e)) => {
            return Some(Err(e));
        },
        None => {
            return None;
        },
    };
    proof {
        assert(context.rest() =~= s.skip(context.index - start));
    }
    let tail = match read_class_tail(context) {
        Ok(v) => v,
        Err(e) => {
            return Some(Err(e));
        },
    };
    Some(Ok(ClassFile {
        magic,
        minor_version,
        major_version,
        constant_pool_count,
        constant_pool,
        access_flags: tail.access_flags,
        this_class: tail.this_class,
        super_class: tail.super_class,
        interfaces_count: tail.interfaces_count,
        interfaces: tail.interfaces,
        fields_count: tail.fields_count,
        fields: tail.fields,
        methods_count: tail.methods_count,
        methods: tail.methods,
        attributes_count: tail.attributes_count,
        attributes: tail.attributes,
    }))
}

/// The part of a class file after its constant pool.
pub struct ClassTail {
    pub access_flags: u16,
    pub this_class: u16,
    pub super_class: u16,
    pub interfaces_count: u16,
    pub interfaces: Vec<u16>,
    pub fields_count: u16,
    pub fields: Vec<FieldInfo>,
    pub methods_count: u16,
    pub methods: Vec<MethodInfo>,
    pub attributes_count: u16,
    pub attributes: Vec<AttributeInfo>,
}

impl ClassTail {
    pub open spec fn view_tail(&self) -> SpecClassTail {
        SpecClassTail {
            access_flags: self.access_flags,
            this_class: self.this_class,
            super_class: self.super_class,
            interfaces: (self.interfaces_count, self.interfaces.deep_view()),
            fields: (self.fields_count, self.fields.deep_view()),
            methods: (self.methods_count, self.methods.deep_view()),
            attributes: (self.attributes_count, self.attributes.deep_view()),
        }
    }
}

/// Reading a counted sequence of integers, members or raw attributes never aborts.
pub proof fn lemma_counted_never_abort(s: Seq<u8>)
    ensures
        !(spec_read_counted::<u16>(s) is Abort),
        !(spec_read_counted::<FieldInfo>(s) is Abort),
        !(spec_read_counted::<MethodInfo>(s) is Abort),
        !(spec_read_counted::<AttributeInfo>(s) is Abort),
{
    reveal(spec_read_counted);
    if s.len() >= 2 {
        lemma_members_never_abort(s.skip(2), be_u16(s[0], s[1]) as nat);
        lemma_raw_attributes_never_abort(s.skip(2), be_u16(s[0], s[1]) as nat);
    }
}

/// Reads the part of a class file after its constant pool.
pub fn read_class_tail(context: &mut ReadContext) -> (r: AsmResult<ClassTail>)
    requires
        old(context).wf(),
    ensures
        final(context).wf(),
        final(context).bytes@ == old(context).bytes@,
        match spec_read_class_tail(old(context).rest()) {
            Parsed::Done(v, n) => r matches Ok(x) && x.view_tail() == v && final(context).index == old(context).index + n,
            Parsed::Fail(e) => r == Err::<ClassTail, AsmErr>(e),
            Parsed::Abort => false,
        },
{
    proof {
        reveal(spec_read_class_tail);
    }
    let ghost s = context.rest();
    let ghost start = context.index;
    let access_flags: u16 = context.read()?;
    let this_class: u16 = context.read()?;
    let super_class: u16 = context.read()?;
    proof {
        assert(context.rest() =~= s.skip(6));
        lemma_counted_never_abort(context.rest());
    }
    let (interfaces_count, interfaces) = read_counted::<u16>(context)?;
    proof {
        assert(context.rest() =~= s.skip(context.index - start));
        lemma_counted_never_abort(context.rest());
    }
    let (fields_count, fields) = read_counted::<FieldInfo>(context)?;
    proof {
        assert(context.rest() =~= s.skip(context.index - start));
        lemma_counted_never_abort(context.rest());
    }
    let (methods_count, methods) = read_counted::<MethodInfo>(context)?;
    proof {
        assert(context.rest() =~= s.skip(context.index - start));
        lemma_counted_never_abort(context.rest());
    }
    let (attributes_count, attributes) = read_counted::<AttributeInfo>(context)?;
    Ok(ClassTail {
        access_flags,
        this_class,
        super_class,
        interfaces_count,
        interfaces,
        fields_count,
        fields,
        methods_count,
        methods,
        attributes_count,
        attributes,
    })
}

/// Reading a counted sequence takes no more bytes than there are.
pub proof fn lemma_counted_len<T: FromReadContext>(s: Seq<u8>)
    ensures
        spec_read_counted::<T>(s) matches Parsed::Done(v, n) ==> n <= s.len() && v.1.len() == v.0,
{
    reveal(spec_read_counted);
    if s.len() >= 2 {
        lemma_read_vec_len::<T>(s.skip(2), be_u16(s[0], s[1]) as nat);
    }
}

/// Reading the part after the constant pool takes no more bytes than there are.
pub proof fn lemma_class_tail_len(s: Seq<u8>)
    ensures
        spec_read_class_tail(s) matches Parsed::Done(_, n) ==> n <= s.len(),
{
    reveal(spec_read_class_tail);
    if s.len() >= 6 {
        lemma_counted_len::<u16>(s.skip(6));
        if let Parsed::Done(_, n1) = spec_read_counted::<u16>(s.skip(6)) {
            let p1: int = 6 + n1 as int;
            lemma_counted_len::<FieldInfo>(s.skip(p1));
            if let Parsed::Done(_, n2) = spec_read_counted::<FieldInfo>(s.skip(p1)) {
                let p2: int = p1 + n2;
                lemma_counted_len::<MethodInfo>(s.skip(p2));
                if let Parsed::Done(_, n3) = spec_read_counted::<MethodInfo>(s.skip(p2)) {
                    let p3: int = p2 + n3;
                    lemma_counted_len::<AttributeInfo>(s.skip(p3));
                }
            }
        }
    }
}

/// Reading constant-pool entries takes no more bytes than there are.
pub proof fn lemma_cp_entries_len(s: Seq<u8>, slots: nat)
    ensures
        spec_cp_entries(s, slots) matches Parsed::Done(_, n) ==> n <= s.len(),
    decreases slots,
{
    if slots > 0 && s.len() >= 1 {
        let tag = s[0];
        if let Parsed::Done(c, k) = spec_read_const(s.skip(1), tag) {
            if slots >= cp_slots(tag) {
                lemma_cp_entries_len(s.skip((1 + k) as int), (slots - cp_slots(tag)) as nat);
            }
        }
    }
}

/// Reading constant-pool entries for `slots` slots gives one entry per slot.
pub proof fn lemma_cp_entries_count(s: Seq<u8>, slots: nat)
    ensures
        spec_cp_entries(s, slots) matches Parsed::Done(es, _) ==> es.len() == slots,
    decreases slots,
{
    if slots > 0 && s.len() >= 1 {
        let tag = s[0];
        if let Parsed::Done(c, k) = spec_read_const(s.skip(1), tag) {
            if slots >= cp_slots(tag) {
                lemma_cp_entries_count(s.skip((1 + k) as int), (slots - cp_slots(tag)) as nat);
            }
        }
    }
}

/// A constant pool read for `count` slots has `count` entries, the placeholder at index 0
/// included: every constant stands at its index in the pool.
pub proof fn lemma_cp_count(s: Seq<u8>, count: nat)
    ensures
        spec_read_cp(s, count) matches Parsed::Done(cp, _) ==> cp.len() == count,
{
    if count > 0 {
        lemma_cp_entries_count(s, (count - 1) as nat);
    }
}

pub proof fn lemma_cp_len(s: Seq<u8>, count: nat)
    ensures
        spec_read_cp(s, count) matches Parsed::Done(_, n) ==> n <= s.len(),
{
    if count > 0 {
        lemma_cp_entries_len(s, (count - 1) as nat);
    }
}

} // verus!
