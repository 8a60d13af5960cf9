//! Reading the bodies of the attributes of a class file, once the class file has been
//! read with its bodies kept as bytes.

use crate::err::{AsmErr, AsmResult};
use crate::jvms::attr::{attribute_info_view, attribute_infos_view, Attribute, ExceptionTable, SpecAttribute};
use crate::jvms::element::{
    AttributeInfo, CPInfo, ClassFile, Const, FieldInfo, MethodInfo, SpecAttributeInfo, SpecCPInfo,
    SpecClassFile, SpecConst, SpecMemberInfo,
};
use crate::jvms::read::attr_body::{
    lemma_counted_raw_attributes_total, lemma_counted_total, read_attribute_body, spec_attribute_body,
};
use crate::jvms::read::bytes::{be_u16, be_u32, spec_read_vec, FromReadContext, Parsed, ReadContext};
use crate::jvms::read::jvms_reader::{read_bytes, read_counted, spec_read_counted};
use crate::util::{str_eq, string_from_utf8};
use vstd::prelude::*;
use vstd::utf8::{decode_utf8, valid_utf8};

verus! {

/// What a step that reads no further bytes gives: a value, an error, or a panic.
pub enum Outcome<T> {
    Value(T),
    Error(AsmErr),
    Panic,
}

/// How an executable step relates to its specification.
pub open spec fn outcome_result<T: DeepView>(o: Outcome<T::V>, r: AsmResult<T>) -> bool {
    match o {
        Outcome::Value(v) => r matches Ok(x) && x.deep_view() == v,
        Outcome::Error(e) => r == Err::<T, AsmErr>(e),
        Outcome::Panic => false,
    }
}

/// How an executable step that stops where the reader would panic relates to its
/// specification: it gives `None` exactly there.
pub open spec fn outcome_option<T: DeepView>(o: Outcome<T::V>, r: Option<AsmResult<T>>) -> bool {
    match o {
        Outcome::Panic => r is None,
        _ => r matches Some(x) && outcome_result::<T>(o, x),
    }
}

/// The string held by the constant-pool entry at `index`. It panics past the end of the pool.
pub open spec fn spec_cp_utf8(cp: Seq<SpecCPInfo>, index: int) -> Outcome<Seq<char>> {
    if index < 0 || index >= cp.len() {
        Outcome::Panic
    } else if cp[index].tag != 1 {
        Outcome::Error(AsmErr::NotUtf8Const { index: index as usize, tag: cp[index].tag })
    } else {
        match cp[index].info {
            SpecConst::Utf8 { bytes, .. } => if valid_utf8(bytes) {
                Outcome::Value(decode_utf8(bytes))
            } else {
                Outcome::Error(AsmErr::ReadUTF8)
            },
            _ => Outcome::Error(AsmErr::MismatchedUtf8Const { index: index as usize }),
        }
    }
}

/// Reads the string held by the `CONSTANT_Utf8` entry at `index` of the constant pool.
pub fn read_utf8_from_cp(index: usize, cp: &Vec<CPInfo>) -> (r: AsmResult<String>)
    requires
        index < cp.len(),
    ensures
        match spec_cp_utf8(cp.deep_view(), index as int) {
            Outcome::Value(s) => r matches Ok(x) && x@ == s,
            Outcome::Error(e) => r == Err::<String, AsmErr>(e),
            Outcome::Panic => false,
        },
{
    let cp_info = &cp[index];
    let tag = cp_info.tag;
    if tag != 1 {
        return Err(AsmErr::NotUtf8Const { index, tag });
    }
    match &cp_info.info {
        Const::Utf8 { bytes, .. } => match string_from_utf8(bytes.as_slice()) {
            Some(s) => Ok(s),
            None => Err(AsmErr::ReadUTF8),
        },
        _ => Err(AsmErr::MismatchedUtf8Const { index }),
    }
}

/// The body of a Code attribute with its attributes kept as bytes.
pub struct SpecCodeRaw {
    pub max_stack: u16,
    pub max_locals: u16,
    pub code_length: u32,
    pub code: Seq<u8>,
    pub exception_table: (u16, Seq<ExceptionTable>),
    pub attributes: (u16, Seq<SpecAttributeInfo>),
}

/// What reading the body of a Code attribute gives; its own attributes stay bytes.
pub open spec fn spec_read_code_raw(s: Seq<u8>) -> Parsed<SpecCodeRaw> {
    if s.len() < 8 {
        Parsed::Fail(AsmErr::OutOfRange)
    } else {
        let code_length = be_u32(s[4], s[5], s[6], s[7]);
        if s.len() - 8 < code_length {
            Parsed::Fail(AsmErr::OutOfRange)
        } else {
            let p: int = 8 + code_length;
            match spec_read_counted::<ExceptionTable>(s.skip(p)) {
                Parsed::Done(et, n1) => match spec_read_counted::<AttributeInfo>(s.skip(p + n1)) {
                    Parsed::Done(attributes, n2) => Parsed::Done(
                        SpecCodeRaw {
                            max_stack: be_u16(s[0], s[1]),
                            max_locals: be_u16(s[2], s[3]),
                            code_length,
                            code: s.subrange(8, p),
                            exception_table: et,
                            attributes,
                        },
                        (p + n1 + n2) as nat,
                    ),
                    Parsed::Fail(e) => Parsed::Fail(e),
                    Parsed::Abort => Parsed::Abort,
                },
                Parsed::Fail(e) => Parsed::Fail(e),
                Parsed::Abort => Parsed::Abort,
            }
        }
    }
}

pub struct CodeRaw {
    pub max_stack: u16,
    pub max_locals: u16,
    pub code_length: u32,
    pub code: Vec<u8>,
    pub exception_table_length: u16,
    pub exception_table: Vec<ExceptionTable>,
    pub attributes_count: u16,
    pub attributes: Vec<AttributeInfo>,
}

impl CodeRaw {
    pub open spec fn view_raw(&self) -> SpecCodeRaw {
        SpecCodeRaw {
            max_stack: self.max_stack,
            max_locals: self.max_locals,
            code_length: self.code_length,
            code: self.code@,
            exception_table: (self.exception_table_length, self.exception_table.deep_view()),
            attributes: (self.attributes_count, self.attributes.deep_view()),
        }
    }
}

/// Reads the body of a Code attribute; its own attributes stay bytes.
pub fn read_code_raw(context: &mut ReadContext) -> (r: AsmResult<CodeRaw>)
    requires
        old(context).wf(),
    ensures
        match spec_read_code_raw(old(context).rest()) {
            Parsed::Done(v, _) => r matches Ok(x) && x.view_raw() == v,
            Parsed::Fail(e) => r == Err::<CodeRaw, AsmErr>(e),
            Parsed::Abort => false,
        },
{
    let ghost s = context.rest();
    let ghost start = context.index;
    let max_stack: u16 = context.read()?;
    let max_locals: u16 = context.read()?;
    let code_length: u32 = context.read()?;
    proof {
        assert(context.rest() =~= s.skip(8));
    }
    let code: Vec<u8> = read_bytes(context, code_length as usize)?;
    proof {
        assert(s.skip(8).take(code_length as int) =~= s.subrange(8, 8 + code_length));
        assert(context.rest() =~= s.skip(context.index - start));
        crate::jvms::read::attr_body::lemma_tables_total();
        lemma_counted_total::<ExceptionTable>(context.rest());
    }
    let (exception_table_length, exception_table) = read_counted::<ExceptionTable>(context)?;
    proof {
        assert(context.rest() =~= s.skip(context.index - start));
        lemma_counted_raw_attributes_total(context.rest());
    }
    let (attributes_count, attributes) = read_counted::<AttributeInfo>(context)?;
    Ok(CodeRaw {
        max_stack,
        max_locals,
        code_length,
        code,
        exception_table_length,
        exception_table,
        attributes_count,
        attributes,
    })
}

/// Each raw attribute read from `s` has a body at least six bytes shorter than what was read.
pub proof fn lemma_raw_attributes_short(s: Seq<u8>, n: nat)
    ensures
        spec_read_vec::<AttributeInfo>(s, n) matches Parsed::Done(vs, m) ==> forall|i: int|
            0 <= i < vs.len() ==> ((#[trigger] vs[i]).info matches SpecAttribute::Custom(b) && b.len() + 6 <= m),
    decreases n,
{
    if n > 0 {
        lemma_raw_attributes_short(s, (n - 1) as nat);
        crate::jvms::read::bytes::lemma_read_vec_len::<AttributeInfo>(s, (n - 1) as nat);
    }
}

/// The attributes inside a Code body are bytes, each shorter than the body.
pub proof fn lemma_code_attributes_short(s: Seq<u8>)
    ensures
        spec_read_code_raw(s) matches Parsed::Done(c, _) ==> forall|i: int|
            0 <= i < c.attributes.1.len() ==> ((#[trigger] c.attributes.1[i]).info matches SpecAttribute::Custom(b)
                && b.len() < s.len()),
{
    reveal(spec_read_counted);
    if s.len() >= 8 {
        let code_length = be_u32(s[4], s[5], s[6], s[7]);
        if s.len() - 8 >= code_length {
            let p: int = 8 + code_length;
            crate::jvms::read::jvms_reader::lemma_counted_len::<ExceptionTable>(s.skip(p));
            if let Parsed::Done(_, n1) = spec_read_counted::<ExceptionTable>(s.skip(p)) {
                let t = s.skip(p + n1);
                if t.len() >= 2 {
                    let c = be_u16(t[0], t[1]);
                    lemma_raw_attributes_short(t.skip(2), c as nat);
                    crate::jvms::read::bytes::lemma_read_vec_len::<AttributeInfo>(t.skip(2), c as nat);
                }
            }
        }
    }
}

/// Whether the body of `a`, if it is still bytes, is shorter than `limit`.
pub open spec fn custom_below(a: SpecAttributeInfo, limit: nat) -> bool {
    a.info matches SpecAttribute::Custom(b) ==> b.len() < limit
}

/// What reading the body of `a` gives, given the constant pool `cp`. Its name must be a
/// `CONSTANT_Utf8` entry; a body that is no longer bytes is kept; a Code body has its own
/// attributes read in turn. `limit` bounds the length of the body.
pub open spec fn spec_transform_attribute(a: SpecAttributeInfo, cp: Seq<SpecCPInfo>, limit: nat) -> Outcome<
    SpecAttributeInfo,
>
    decreases limit, 0nat,
{
    match a.info {
        SpecAttribute::Custom(bytes) => if bytes.len() >= limit {
            Outcome::Panic
        } else {
            match spec_cp_utf8(cp, a.attribute_name_index as int) {
                Outcome::Value(name) => if name == "Code"@ {
                    match spec_read_code_raw(bytes) {
                        Parsed::Done(c, _) => match spec_transform_attributes(c.attributes.1, cp, bytes.len()) {
                            Outcome::Value(attributes) => Outcome::Value(
                                SpecAttributeInfo {
                                    attribute_name_index: a.attribute_name_index,
                                    attribute_length: a.attribute_length,
                                    info: SpecAttribute::Code {
                                        max_stack: c.max_stack,
                                        max_locals: c.max_locals,
                                        code_length: c.code_length,
                                        code: c.code,
                                        exception_table_length: c.exception_table.0,
                                        exception_table: c.exception_table.1,
                                        attributes_count: c.attributes.0,
                                        attributes,
                                    },
                                },
                            ),
                            Outcome::Error(e) => Outcome::Error(e),
                            Outcome::Panic => Outcome::Panic,
                        },
                        Parsed::Fail(e) => Outcome::Error(e),
                        Parsed::Abort => Outcome::Panic,
                    }
                } else {
                    match spec_attribute_body(name, bytes, a.attribute_length) {
                        Parsed::Done(info, _) => Outcome::Value(
                            SpecAttributeInfo {
                                attribute_name_index: a.attribute_name_index,
                                attribute_length: a.attribute_length,
                                info,
                            },
                        ),
                        Parsed::Fail(e) => Outcome::Error(e),
                        Parsed::Abort => Outcome::Panic,
                    }
                },
                Outcome::Error(e) => Outcome::Error(e),
                Outcome::Panic => Outcome::Panic,
            }
        },
        _ => Outcome::Value(a),
    }
}

/// What reading the bodies of the attributes of `s`, first to last, gives. It stops at
/// the first error.
pub open spec fn spec_transform_attributes(s: Seq<SpecAttributeInfo>, cp: Seq<SpecCPInfo>, limit: nat) -> Outcome<
    Seq<SpecAttributeInfo>,
>
    decreases limit, s.len() + 1,
{
    if s.len() == 0 {
        Outcome::Value(Seq::empty())
    } else {
        match spec_transform_attributes(s.drop_last(), cp, limit) {
            Outcome::Value(vs) => match spec_transform_attribute(s.last(), cp, limit) {
                Outcome::Value(v) => Outcome::Value(vs.push(v)),
                Outcome::Error(e) => Outcome::Error(e),
                Outcome::Panic => Outcome::Panic,
            },
            Outcome::Error(e) => Outcome::Error(e),
            Outcome::Panic => Outcome::Panic,
        }
    }
}

/// Once a prefix stops with an error or a panic, the whole list stops the same way.
pub proof fn lemma_transform_stuck(s: Seq<SpecAttributeInfo>, cp: Seq<SpecCPInfo>, limit: nat, i: int, n: int)
    requires
        0 <= i <= n <= s.len(),
        !(spec_transform_attributes(s.take(i), cp, limit) is Value),
    ensures
        spec_transform_attributes(s.take(n), cp, limit) == spec_transform_attributes(s.take(i), cp, limit),
    decreases n - i,
{
    if i < n {
        lemma_transform_stuck(s, cp, limit, i, n - 1);
        assert(s.take(n).drop_last() =~= s.take(n - 1));
    }
}

/// Reads the body of an attribute, as [spec_transform_attribute] says.
/// It gives `None` where the name index is past the end of the pool.
pub fn transform_attr(attribute_info: AttributeInfo, cp: &Vec<CPInfo>, Ghost(limit): Ghost<nat>) -> (r: Option<
    AsmResult<AttributeInfo>,
>)
    requires
        custom_below(attribute_info_view(attribute_info), limit),
    ensures
        outcome_option::<AttributeInfo>(
            spec_transform_attribute(attribute_info_view(attribute_info), cp.deep_view(), limit),
            r,
        ),
    decreases limit, 0nat,
{
    let ghost a = attribute_info_view(attribute_info);
    let AttributeInfo { attribute_name_index, attribute_length, info } = attribute_info;
    let bytes = match info {
        Attribute::Custom(bytes) => bytes,
        other => {
            return Some(Ok(AttributeInfo { attribute_name_index, attribute_length, info: other }));
        },
    };
    if attribute_name_index as usize >= cp.len() {
        return None;
    }
    let name = match read_utf8_from_cp(attribute_name_index as usize, cp) {
        Ok(name) => name,
        Err(e) => {
            return Some(Err(e));
        },
    };
    if str_eq(name.as_str(), "Code") {
        let mut context = ReadContext::big_endian(bytes.as_slice());
        proof {
            assert(context.rest() =~= bytes@);
            lemma_code_attributes_short(bytes@);
        }
        let raw = match read_code_raw(&mut context) {
            Ok(raw) => raw,
            Err(e) => {
                return Some(Err(e));
            },
        };
        let ghost raw_view = raw.view_raw();
        let CodeRaw {
            max_stack,
            max_locals,
            code_length,
            code,
            exception_table_length,
            exception_table,
            attributes_count,
            attributes,
        } = raw;
        proof {
            assert(attributes.deep_view() =~= attribute_infos_view(attributes@));
            assert forall|i: int| 0 <= i < attributes@.len() implies custom_below(
                #[trigger] attribute_info_view(attributes@[i]),
                bytes@.len(),
            ) by {
                assert(attribute_info_view(attributes@[i]) == raw_view.attributes.1[i]);
            }
        }
        let attributes = match transform_attrs(attributes, cp, Ghost(bytes@.len())) {
            Some(Ok(attributes)) => attributes,
            Some(Err(e)) => {
                return Some(Err(e));
            },
            None => {
                return None;
            },
        };
        let r = AttributeInfo {
            attribute_name_index,
            attribute_length,
            info: Attribute::Code {
                max_stack,
                max_locals,
                code_length,
                code,
                exception_table_length,
                exception_table,
                attributes_count,
                attributes,
            },
        };
        Some(Ok(r))
    } else {
        match read_attribute_body(name.as_str(), bytes, attribute_length) {
            Ok(info) => Some(Ok(AttributeInfo { attribute_name_index, attribute_length, info })),
            Err(e) => Some(Err(e)),
        }
    }
}

/// Reads the bodies of attributes first to last, as [spec_transform_attributes] says.
#[verifier::loop_isolation(false)]
pub fn transform_attrs(attributes: Vec<AttributeInfo>, cp: &Vec<CPInfo>, Ghost(limit): Ghost<nat>) -> (r: Option<
    AsmResult<Vec<AttributeInfo>>,
>)
    requires
        forall|i: int| 0 <= i < attributes@.len() ==> custom_below(#[trigger] attribute_info_view(attributes@[i]), limit),
    ensures
        match spec_transform_attributes(attribute_infos_view(attributes@), cp.deep_view(), limit) {
            Outcome::Value(vs) => r matches Some(Ok(x)) && attribute_infos_view(x@) == vs,
            Outcome::Error(e) => r == Some(Err::<Vec<AttributeInfo>, AsmErr>(e)),
            Outcome::Panic => r is None,
        },
    decreases limit, attributes@.len() + 1,
{
    let ghost orig = attribute_infos_view(attributes@);
    let ghost cpv = cp.deep_view();
    let mut attributes = attributes;
    let n = attributes.len();
    let mut i: usize = 0;
    proof {
        assert forall|j: int| 0 <= j < n implies custom_below(#[trigger] orig[j], limit) by {
            assert(orig[j] == attribute_info_view(attributes@[j]));
        }
        assert(orig.take(0) =~= Seq::<SpecAttributeInfo>::empty());
        assert(attribute_infos_view(attributes@).take(0) =~= Seq::<SpecAttributeInfo>::empty());
    }
    while i < n
        invariant
            n == attributes.len(),
            n == orig.len(),
            cpv == cp.deep_view(),
            i <= n,
            forall|j: int| i <= j < n ==> attribute_info_view(#[trigger] attributes@[j]) == orig[j],
            forall|j: int| 0 <= j < n ==> custom_below(#[trigger] orig[j], limit),
            spec_transform_attributes(orig.take(i as int), cpv, limit) == Outcome::Value(
                attribute_infos_view(attributes@).take(i as int),
            ),
        decreases n - i,
    {
        let ghost before = attribute_infos_view(attributes@).take(i as int);
        let mut item = AttributeInfo { attribute_name_index: 0, attribute_length: 0, info: Attribute::Custom(Vec::new()) };
        attributes.set_and_swap(i, &mut item);
        proof {
            assert(attribute_info_view(item) == orig[i as int]);
            assert(orig.take(i + 1).drop_last() =~= orig.take(i as int));
            assert(orig.take(i + 1).last() == orig[i as int]);
            assert(orig.take(n as int) =~= orig);
        }
        let t = match transform_attr(item, cp, Ghost(limit)) {
            Some(Ok(t)) => t,
            Some(Err(e)) => {
                proof {
                    assert(spec_transform_attributes(orig.take(i + 1), cpv, limit) == Outcome::<
                        Seq<SpecAttributeInfo>,
                    >::Error(e));
                    lemma_transform_stuck(orig, cpv, limit, i + 1, n as int);
                }
                return Some(Err(e));
            },
            None => {
                proof {
                    assert(spec_transform_attributes(orig.take(i + 1), cpv, limit) is Panic);
                    lemma_transform_stuck(orig, cpv, limit, i + 1, n as int);
                }
                return None;
            },
        };
        attributes.set(i, t);
        proof {
            assert(attribute_infos_view(attributes@).take(i + 1) =~= before.push(attribute_info_view(t)));
        }
        i = i + 1;
    }
    proof {
        assert(orig.take(n as int) =~= orig);
        assert(attribute_infos_view(attributes@).take(n as int) =~= attribute_infos_view(attributes@));
    }
    Some(Ok(attributes))
}

} // verus!

verus! {

/// A bound above the length of any body held in memory.
pub open spec fn body_limit() -> nat {
    usize::MAX as nat + 1
}

/// The body of an attribute held in memory is shorter than [body_limit].
pub proof fn lemma_custom_below_limit(a: AttributeInfo)
    ensures
        custom_below(attribute_info_view(a), body_limit()),
{
    if let Attribute::Custom(b) = a.info {
        assert(b@.len() == b.len());
    }
}

/// What reading the bodies of the attributes of a field or method gives.
pub open spec fn spec_transform_member(m: SpecMemberInfo, cp: Seq<SpecCPInfo>) -> Outcome<SpecMemberInfo> {
    match spec_transform_attributes(m.attributes, cp, body_limit()) {
        Outcome::Value(attributes) => Outcome::Value(SpecMemberInfo { attributes, ..m }),
        Outcome::Error(e) => Outcome::Error(e),
        Outcome::Panic => Outcome::Panic,
    }
}

/// What reading the attribute bodies of the members of `s`, first to last, gives.
pub open spec fn spec_transform_members(s: Seq<SpecMemberInfo>, cp: Seq<SpecCPInfo>) -> Outcome<Seq<SpecMemberInfo>>
    decreases s.len(),
{
    if s.len() == 0 {
        Outcome::Value(Seq::empty())
    } else {
        match spec_transform_members(s.drop_last(), cp) {
            Outcome::Value(vs) => match spec_transform_member(s.last(), cp) {
                Outcome::Value(v) => Outcome::Value(vs.push(v)),
                Outcome::Error(e) => Outcome::Error(e),
                Outcome::Panic => Outcome::Panic,
            },
            Outcome::Error(e) => Outcome::Error(e),
            Outcome::Panic => Outcome::Panic,
        }
    }
}

/// Once a prefix of members stops with an error or a panic, the whole list stops the same way.
pub proof fn lemma_members_stuck(s: Seq<SpecMemberInfo>, cp: Seq<SpecCPInfo>, i: int, n: int)
    requires
        0 <= i <= n <= s.len(),
        !(spec_transform_members(s.take(i), cp) is Value),
    ensures
        spec_transform_members(s.take(n), cp) == spec_transform_members(s.take(i), cp),
    decreases n - i,
{
    if i < n {
        lemma_members_stuck(s, cp, i, n - 1);
        assert(s.take(n).drop_last() =~= s.take(n - 1));
    }
}

/// What reading all attribute bodies of a class file gives: those of the class first,
/// then those of its fields, then those of its methods.
pub open spec fn spec_transform_class_file(cf: SpecClassFile) -> Outcome<SpecClassFile> {
    let cp = cf.constant_pool;
    match spec_transform_attributes(cf.attributes, cp, body_limit()) {
        Outcome::Value(attributes) => match spec_transform_members(cf.fields, cp) {
            Outcome::Value(fields) => match spec_transform_members(cf.methods, cp) {
                Outcome::Value(methods) => Outcome::Value(SpecClassFile { attributes, fields, methods, ..cf }),
                Outcome::Error(e) => Outcome::Error(e),
                Outcome::Panic => Outcome::Panic,
            },
            Outcome::Error(e) => Outcome::Error(e),
            Outcome::Panic => Outcome::Panic,
        },
        Outcome::Error(e) => Outcome::Error(e),
        Outcome::Panic => Outcome::Panic,
    }
}

/// Reads the bodies of the attributes of `attributes`, every one held in memory.
fn transform_attrs_in_memory(attributes: Vec<AttributeInfo>, cp: &Vec<CPInfo>) -> (r: Option<AsmResult<Vec<AttributeInfo>>>)
    ensures
        match spec_transform_attributes(attribute_infos_view(attributes@), cp.deep_view(), body_limit()) {
            Outcome::Value(vs) => r matches Some(Ok(x)) && attribute_infos_view(x@) == vs,
            Outcome::Error(e) => r == Some(Err::<Vec<AttributeInfo>, AsmErr>(e)),
            Outcome::Panic => r is None,
        },
{
    proof {
        assert forall|i: int| 0 <= i < attributes@.len() implies custom_below(
            #[trigger] attribute_info_view(attributes@[i]),
            body_limit(),
        ) by {
            lemma_custom_below_limit(attributes@[i]);
        }
    }
    transform_attrs(attributes, cp, Ghost(body_limit()))
}

/// Reads the attribute bodies of a field.
pub fn transform_field(field_info: FieldInfo, cp: &Vec<CPInfo>) -> (r: Option<AsmResult<FieldInfo>>)
    ensures
        outcome_option::<FieldInfo>(spec_transform_member(field_info.deep_view(), cp.deep_view()), r),
{
    let FieldInfo { access_flags, name_index, descriptor_index, attributes_count, attributes } = field_info;
    proof {
        assert(attributes.deep_view() =~= attribute_infos_view(attributes@));
    }
    let attributes = match transform_attrs_in_memory(attributes, cp) {
        Some(Ok(attributes)) => attributes,
        Some(Err(e)) => {
            return Some(Err(e));
        },
        None => {
            return None;
        },
    };
    proof {
        assert(attributes.deep_view() =~= attribute_infos_view(attributes@));
    }
    Some(Ok(FieldInfo { access_flags, name_index, descriptor_index, attributes_count, attributes }))
}

/// Reads the attribute bodies of a method.
pub fn transform_method(method_info: MethodInfo, cp: &Vec<CPInfo>) -> (r: Option<AsmResult<MethodInfo>>)
    ensures
        outcome_option::<MethodInfo>(spec_transform_member(method_info.deep_view(), cp.deep_view()), r),
{
    let MethodInfo { access_flags, name_index, descriptor_index, attributes_count, attributes } = method_info;
    proof {
        assert(attributes.deep_view() =~= attribute_infos_view(attributes@));
    }
    let attributes = match transform_attrs_in_memory(attributes, cp) {
        Some(Ok(attributes)) => attributes,
        Some(Err(e)) => {
            return Some(Err(e));
        },
        None => {
            return None;
        },
    };
    proof {
        assert(attributes.deep_view() =~= attribute_infos_view(attributes@));
    }
    Some(Ok(MethodInfo { access_flags, name_index, descriptor_index, attributes_count, attributes }))
}

/// Reads the attribute bodies of fields, first to last.
#[verifier::loop_isolation(false)]
pub fn transform_fields(fields: Vec<FieldInfo>, cp: &Vec<CPInfo>) -> (r: Option<AsmResult<Vec<FieldInfo>>>)
    ensures
        outcome_option::<Vec<FieldInfo>>(spec_transform_members(fields.deep_view(), cp.deep_view()), r),
{
    let ghost orig = fields.deep_view();
    let ghost cpv = cp.deep_view();
    let mut fields = fields;
    let n = fields.len();
    let mut i: usize = 0;
    proof {
        assert(orig.take(0) =~= Seq::<SpecMemberInfo>::empty());
        assert(fields.deep_view().take(0) =~= Seq::<SpecMemberInfo>::empty());
    }
    while i < n
        invariant
            n == fields.len(),
            n == orig.len(),
            i <= n,
            forall|j: int| i <= j < n ==> (#[trigger] fields@[j]).deep_view() == orig[j],
            spec_transform_members(orig.take(i as int), cpv) == Outcome::Value(fields.deep_view().take(i as int)),
        decreases n - i,
    {
        let ghost before = fields.deep_view().take(i as int);
        let mut item = FieldInfo {
            access_flags: 0,
            name_index: 0,
            descriptor_index: 0,
            attributes_count: 0,
            attributes: Vec::new(),
        };
        fields.set_and_swap(i, &mut item);
        proof {
            assert(item.deep_view() == orig[i as int]);
            assert(orig.take(i + 1).drop_last() =~= orig.take(i as int));
            assert(orig.take(n as int) =~= orig);
        }
        let t = match transform_field(item, cp) {
            Some(Ok(t)) => t,
            Some(Err(e)) => {
                proof {
                    assert(spec_transform_members(orig.take(i + 1), cpv) == Outcome::<Seq<SpecMemberInfo>>::Error(e));
                    lemma_members_stuck(orig, cpv, i + 1, n as int);
                }
                return Some(Err(e));
            },
            None => {
                proof {
                    assert(spec_transform_members(orig.take(i + 1), cpv) is Panic);
                    lemma_members_stuck(orig, cpv, i + 1, n as int);
                }
                return None;
            },
        };
        fields.set(i, t);
        proof {
            assert(fields.deep_view().take(i + 1) =~= before.push(t.deep_view()));
        }
        i = i + 1;
    }
    proof {
        assert(orig.take(n as int) =~= orig);
        assert(fields.deep_view().take(n as int) =~= fields.deep_view());
    }
    Some(Ok(fields))
}

/// Reads the attribute bodies of methods, first to last.
#[verifier::loop_isolation(false)]
pub fn transform_methods(methods: Vec<MethodInfo>, cp: &Vec<CPInfo>) -> (r: Option<AsmResult<Vec<MethodInfo>>>)
    ensures
        outcome_option::<Vec<MethodInfo>>(spec_transform_members(methods.deep_view(), cp.deep_view()), r),
{
    let ghost orig = methods.deep_view();
    let ghost cpv = cp.deep_view();
    let mut methods = methods;
    let n = methods.len();
    let mut i: usize = 0;
    proof {
        assert(orig.take(0) =~= Seq::<SpecMemberInfo>::empty());
        assert(methods.deep_view().take(0) =~= Seq::<SpecMemberInfo>::empty());
    }
    while i < n
        invariant
            n == methods.len(),
            n == orig.len(),
            i <= n,
            forall|j: int| i <= j < n ==> (#[trigger] methods@[j]).deep_view() == orig[j],
            spec_transform_members(orig.take(i as int), cpv) == Outcome::Value(methods.deep_view().take(i as int)),
        decreases n - i,
    {
        let ghost before = methods.deep_view().take(i as int);
        let mut item = MethodInfo {
            access_flags: 0,
            name_index: 0,
            descriptor_index: 0,
            attributes_count: 0,
            attributes: Vec::new(),
        };
        methods.set_and_swap(i, &mut item);
        proof {
            assert(item.deep_view() == orig[i as int]);
            assert(orig.take(i + 1).drop_last() =~= orig.take(i as int));
            assert(orig.take(n as int) =~= orig);
        }
        let t = match transform_method(item, cp) {
            Some(Ok(t)) => t,
            Some(Err(e)) => {
                proof {
                    assert(spec_transform_members(orig.take(i + 1), cpv) == Outcome::<Seq<SpecMemberInfo>>::Error(e));
                    lemma_members_stuck(orig, cpv, i + 1, n as int);
                }
                return Some(Err(e));
            },
            None => {
                proof {
                    assert(spec_transform_members(orig.take(i + 1), cpv) is Panic);
                    lemma_members_stuck(orig, cpv, i + 1, n as int);
                }
                return None;
            },
        };
        methods.set(i, t);
        proof {
            assert(methods.deep_view().take(i + 1) =~= before.push(t.deep_view()));
        }
        i = i + 1;
    }
    proof {
        assert(orig.take(n as int) =~= orig);
        assert(methods.deep_view().take(n as int) =~= methods.deep_view());
    }
    Some(Ok(methods))
}

/// Reads all attribute bodies of a class file, as [spec_transform_class_file] says.
/// It gives `None` where an attribute's name index is past the end of the pool.
pub fn transform_class_file(origin: ClassFile) -> (r: Option<AsmResult<ClassFile>>)
    ensures
        outcome_option::<ClassFile>(spec_transform_class_file(origin.deep_view()), r),
{
    let ClassFile {
        magic,
        minor_version,
        major_version,
        constant_pool_count,
        constant_pool,
        access_flags,
        this_class,
        super_class,
        interfaces_count,
        interfaces,
        fields_count,
        fields,
        methods_count,
        methods,
        attributes_count,
        attributes,
    } = origin;
    proof {
        assert(attributes.deep_view() =~= attribute_infos_view(attributes@));
    }
    let attributes = match transform_attrs_in_memory(attributes, &constant_pool) {
        Some(Ok(attributes)) => attributes,
        Some(Err(e)) => {
            return Some(Err(e));
        },
        None => {
            return None;
        },
    };
    proof {
        assert(attributes.deep_view() =~= attribute_infos_view(attributes@));
    }
    let fields = match transform_fields(fields, &constant_pool) {
        Some(Ok(fields)) => fields,
        Some(Err(e)) => {
            return Some(Err(e));
        },
        None => {
            return None;
        },
    };
    let methods = match transform_methods(methods, &constant_pool) {
        Some(Ok(methods)) => methods,
        Some(Err(e)) => {
            return Some(Err(e));
        },
        None => {
            return None;
        },
    };
    Some(Ok(ClassFile {
        magic,
        minor_version,
        major_version,
        constant_pool_count,
        constant_pool,
        access_flags,
        this_class,
        super_class,
        interfaces_count,
        interfaces,
        fields_count,
        fields,
        methods_count,
        methods,
        attributes_count,
        attributes,
    }))
}

} // verus!

verus! {

/// A body that reading keeps as bytes is kept whole: only a name the reader does not know
/// gives bytes, and then the bytes are the body.
proof fn lemma_body_kept(name: Seq<char>, s: Seq<u8>, length: u32)
    ensures
        spec_attribute_body(name, s, length) matches Parsed::Done(SpecAttribute::Custom(x), _) ==> x == s,
{
}

/// Reading the body of an attribute twice changes nothing: what one read gives, a
/// second read gives back unchanged.
pub proof fn lemma_transform_idempotent(a: SpecAttributeInfo, cp: Seq<SpecCPInfo>, limit: nat)
    requires
        spec_transform_attribute(a, cp, limit) is Value,
    ensures
        spec_transform_attribute(spec_transform_attribute(a, cp, limit)->Value_0, cp, limit) == spec_transform_attribute(
            a,
            cp,
            limit,
        ),
{
    let b = spec_transform_attribute(a, cp, limit)->Value_0;
    if let SpecAttribute::Custom(bytes) = a.info {
        if let Outcome::Value(name) = spec_cp_utf8(cp, a.attribute_name_index as int) {
            if name != "Code"@ {
                lemma_body_kept(name, bytes, a.attribute_length);
            }
        }
    }
}

} // verus!
