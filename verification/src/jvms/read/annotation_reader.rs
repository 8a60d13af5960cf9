//! Reading annotations (JVMS 4.7.16 to 4.7.22).

use crate::err::{AsmErr, AsmResult};
use crate::jvms::attr::annotation::{
    annotations_view, element_value_info_view, element_value_infos_view, element_view, elements_view,
    AnnotationElement, AnnotationElementValue, AnnotationElementValueInfo, AnnotationInfo, ParameterAnnotationInfo,
    SpecAnnotationElement, SpecAnnotationElementValue, SpecAnnotationElementValueInfo, SpecAnnotationInfo,
    SpecParameterAnnotationInfo, SpecTypeAnnotation, SpecTypeAnnotationTargetInfo, SpecTypeAnnotationTargetPath,
    TypeAnnotation, TypeAnnotationTargetInfo, TypeAnnotationTargetInfoLocalVarTable, TypeAnnotationTargetPath,
    TypeAnnotationTargetPathInfo,
};
use crate::jvms::read::attr_body::{lemma_counted_total, lemma_read_vec_total};
use crate::jvms::read::bytes::{
    be_u16, lemma_read_vec_len, read_result, spec_read_vec, FromReadContext, Parsed, ReadContext,
};
use crate::jvms::read::jvms_reader::{lemma_counted_len, prepend, read_counted, spec_read_counted};
use vstd::prelude::*;

verus! {

/// The tags of element values that hold one constant-pool index of a constant:
/// `B`, `C`, `D`, `F`, `I`, `J`, `S`, `Z` and `s`.
pub open spec fn is_const_value_tag(tag: u8) -> bool {
    ||| tag == 0x42
    ||| tag == 0x43
    ||| tag == 0x44
    ||| tag == 0x46
    ||| tag == 0x49
    ||| tag == 0x4A
    ||| tag == 0x53
    ||| tag == 0x5A
    ||| tag == 0x73
}

/// What reading an `element_value` gives: its tag, then what the tag says it holds — a
/// constant index, an enum's type and constant names (`e`), a class (`c`), a nested
/// annotation (`@`), or a counted array of element values (`[`).
pub open spec fn spec_read_element_value(s: Seq<u8>) -> Parsed<SpecAnnotationElementValueInfo>
    decreases s.len(), 0nat, 0nat,
{
    if s.len() < 1 {
        Parsed::Fail(AsmErr::OutOfRange)
    } else {
        let tag = s[0];
        if is_const_value_tag(tag) {
            if s.len() < 3 {
                Parsed::Fail(AsmErr::OutOfRange)
            } else {
                Parsed::Done(
                    SpecAnnotationElementValueInfo {
                        tag,
                        value: SpecAnnotationElementValue::Const { const_value_index: be_u16(s[1], s[2]) },
                    },
                    3,
                )
            }
        } else if tag == 0x65 {
            if s.len() < 5 {
                Parsed::Fail(AsmErr::OutOfRange)
            } else {
                Parsed::Done(
                    SpecAnnotationElementValueInfo {
                        tag,
                        value: SpecAnnotationElementValue::EnumConst {
                            type_name_index: be_u16(s[1], s[2]),
                            const_name_index: be_u16(s[3], s[4]),
                        },
                    },
                    5,
                )
            }
        } else if tag == 0x63 {
            if s.len() < 3 {
                Parsed::Fail(AsmErr::OutOfRange)
            } else {
                Parsed::Done(
                    SpecAnnotationElementValueInfo {
                        tag,
                        value: SpecAnnotationElementValue::Class { class_info_index: be_u16(s[1], s[2]) },
                    },
                    3,
                )
            }
        } else if tag == 0x40 {
            match spec_read_annotation(s.skip(1)) {
                Parsed::Done(a, n) => Parsed::Done(
                    SpecAnnotationElementValueInfo {
                        tag,
                        value: SpecAnnotationElementValue::Annotation { annotation_value: a },
                    },
                    1 + n,
                ),
                Parsed::Fail(e) => Parsed::Fail(e),
                Parsed::Abort => Parsed::Abort,
            }
        } else if tag == 0x5B {
            if s.len() < 3 {
                Parsed::Fail(AsmErr::OutOfRange)
            } else {
                let n = be_u16(s[1], s[2]);
                match spec_read_element_values(s.skip(3), n as nat) {
                    Parsed::Done(vs, m) => Parsed::Done(
                        SpecAnnotationElementValueInfo {
                            tag,
                            value: SpecAnnotationElementValue::Array { num_values: n, values: vs },
                        },
                        3 + m,
                    ),
                    Parsed::Fail(e) => Parsed::Fail(e),
                    Parsed::Abort => Parsed::Abort,
                }
            }
        } else {
            Parsed::Fail(AsmErr::UnknownElementValueTag(tag))
        }
    }
}

/// What reading an `annotation` gives: its type index, its count, then that many
/// element-value pairs.
pub open spec fn spec_read_annotation(s: Seq<u8>) -> Parsed<SpecAnnotationInfo>
    decreases s.len(), 0nat, 0nat,
{
    if s.len() < 4 {
        Parsed::Fail(AsmErr::OutOfRange)
    } else {
        let n = be_u16(s[2], s[3]);
        match spec_read_elements(s.skip(4), n as nat) {
            Parsed::Done(es, m) => Parsed::Done(
                SpecAnnotationInfo { type_index: be_u16(s[0], s[1]), num_element_value_pairs: n, element_value_pairs: es },
                4 + m,
            ),
            Parsed::Fail(e) => Parsed::Fail(e),
            Parsed::Abort => Parsed::Abort,
        }
    }
}

/// What reading an element-value pair gives: the name index, then the value.
pub open spec fn spec_read_element(s: Seq<u8>) -> Parsed<SpecAnnotationElement>
    decreases s.len(), 0nat, 0nat,
{
    if s.len() < 2 {
        Parsed::Fail(AsmErr::OutOfRange)
    } else {
        match spec_read_element_value(s.skip(2)) {
            Parsed::Done(v, n) => Parsed::Done(
                SpecAnnotationElement { element_name_index: be_u16(s[0], s[1]), value: v },
                2 + n,
            ),
            Parsed::Fail(e) => Parsed::Fail(e),
            Parsed::Abort => Parsed::Abort,
        }
    }
}

/// What reading `n` element-value pairs one after another gives.
pub open spec fn spec_read_elements(s: Seq<u8>, n: nat) -> Parsed<Seq<SpecAnnotationElement>>
    decreases s.len(), 1nat, n,
{
    if n == 0 {
        Parsed::Done(Seq::empty(), 0)
    } else {
        match spec_read_element(s) {
            Parsed::Done(e, k) => if k > s.len() {
                Parsed::Abort
            } else {
                prepend(seq![e], k, spec_read_elements(s.skip(k as int), (n - 1) as nat))
            },
            Parsed::Fail(x) => Parsed::Fail(x),
            Parsed::Abort => Parsed::Abort,
        }
    }
}

/// What reading `n` element values one after another gives.
pub open spec fn spec_read_element_values(s: Seq<u8>, n: nat) -> Parsed<Seq<SpecAnnotationElementValueInfo>>
    decreases s.len(), 1nat, n,
{
    if n == 0 {
        Parsed::Done(Seq::empty(), 0)
    } else {
        match spec_read_element_value(s) {
            Parsed::Done(v, k) => if k > s.len() {
                Parsed::Abort
            } else {
                prepend(seq![v], k, spec_read_element_values(s.skip(k as int), (n - 1) as nat))
            },
            Parsed::Fail(x) => Parsed::Fail(x),
            Parsed::Abort => Parsed::Abort,
        }
    }
}

/// Reading an element value never aborts, and takes no more bytes than there are.
pub proof fn lemma_element_value_total(s: Seq<u8>)
    ensures
        !(spec_read_element_value(s) is Abort),
        spec_read_element_value(s) matches Parsed::Done(_, k) ==> k <= s.len(),
    decreases s.len(), 0nat, 0nat,
{
    if s.len() >= 1 {
        let tag = s[0];
        if tag == 0x40 {
            lemma_annotation_total(s.skip(1));
        } else if tag == 0x5B && s.len() >= 3 {
            lemma_element_values_total(s.skip(3), be_u16(s[1], s[2]) as nat);
        }
    }
}

/// Reading an annotation never aborts, and takes no more bytes than there are.
pub proof fn lemma_annotation_total(s: Seq<u8>)
    ensures
        !(spec_read_annotation(s) is Abort),
        spec_read_annotation(s) matches Parsed::Done(_, k) ==> k <= s.len(),
    decreases s.len(), 0nat, 0nat,
{
    if s.len() >= 4 {
        lemma_elements_total(s.skip(4), be_u16(s[2], s[3]) as nat);
    }
}

/// Reading an element-value pair never aborts, and takes no more bytes than there are.
pub proof fn lemma_element_total(s: Seq<u8>)
    ensures
        !(spec_read_element(s) is Abort),
        spec_read_element(s) matches Parsed::Done(_, k) ==> k <= s.len(),
    decreases s.len(), 0nat, 0nat,
{
    if s.len() >= 2 {
        lemma_element_value_total(s.skip(2));
    }
}

/// Reading element-value pairs never aborts, and takes no more bytes than there are.
pub proof fn lemma_elements_total(s: Seq<u8>, n: nat)
    ensures
        !(spec_read_elements(s, n) is Abort),
        spec_read_elements(s, n) matches Parsed::Done(_, k) ==> k <= s.len(),
    decreases s.len(), 1nat, n,
{
    if n > 0 {
        lemma_element_total(s);
        if let Parsed::Done(_, k) = spec_read_element(s) {
            lemma_elements_total(s.skip(k as int), (n - 1) as nat);
        }
    }
}

/// Reading element values never aborts, and takes no more bytes than there are.
pub proof fn lemma_element_values_total(s: Seq<u8>, n: nat)
    ensures
        !(spec_read_element_values(s, n) is Abort),
        spec_read_element_values(s, n) matches Parsed::Done(_, k) ==> k <= s.len(),
    decreases s.len(), 1nat, n,
{
    if n > 0 {
        lemma_element_value_total(s);
        if let Parsed::Done(_, k) = spec_read_element_value(s) {
            lemma_element_values_total(s.skip(k as int), (n - 1) as nat);
        }
    }
}

/// Reads an element value, as [spec_read_element_value] says; `len` is the number of bytes left.
pub fn read_element_value(context: &mut ReadContext, Ghost(len): Ghost<nat>) -> (r: AsmResult<
    AnnotationElementValueInfo,
>)
    requires
        old(context).wf(),
        len == old(context).rest().len(),
    ensures
        final(context).wf(),
        final(context).bytes@ == old(context).bytes@,
        read_result::<AnnotationElementValueInfo>(
            spec_read_element_value(old(context).rest()),
            r,
            old(context).index,
            final(context).index,
        ),
    decreases len, 0nat, 0nat,
{
    let ghost s = context.rest();
    proof {
        lemma_element_value_total(s);
    }
    let tag: u8 = context.read()?;
    proof {
        assert(context.rest() =~= s.skip(1));
    }
    if tag == 0x42 || tag == 0x43 || tag == 0x44 || tag == 0x46 || tag == 0x49 || tag == 0x4A || tag == 0x53 || tag
        == 0x5A || tag == 0x73 {
        let const_value_index: u16 = context.read()?;
        Ok(AnnotationElementValueInfo { tag, value: AnnotationElementValue::Const { const_value_index } })
    } else if tag == 0x65 {
        let type_name_index: u16 = context.read()?;
        proof {
            assert(context.rest() =~= s.skip(3));
        }
        let const_name_index: u16 = context.read()?;
        Ok(AnnotationElementValueInfo { tag, value: AnnotationElementValue::EnumConst { type_name_index, const_name_index } })
    } else if tag == 0x63 {
        let class_info_index: u16 = context.read()?;
        Ok(AnnotationElementValueInfo { tag, value: AnnotationElementValue::Class { class_info_index } })
    } else if tag == 0x40 {
        let annotation_value = read_annotation(context, Ghost((len - 1) as nat))?;
        Ok(AnnotationElementValueInfo { tag, value: AnnotationElementValue::Annotation { annotation_value } })
    } else if tag == 0x5B {
        let num_values: u16 = context.read()?;
        proof {
            assert(context.rest() =~= s.skip(3));
        }
        let values = read_element_values(context, num_values, Ghost((len - 3) as nat))?;
        proof {
            assert(values.deep_view() =~= element_value_infos_view(values@));
        }
        Ok(AnnotationElementValueInfo { tag, value: AnnotationElementValue::Array { num_values, values } })
    } else {
        Err(AsmErr::UnknownElementValueTag(tag))
    }
}

/// Reads `n` element values one after another; `len` is the number of bytes left.
pub fn read_element_values(context: &mut ReadContext, n: u16, Ghost(len): Ghost<nat>) -> (r: AsmResult<
    Vec<AnnotationElementValueInfo>,
>)
    requires
        old(context).wf(),
        len == old(context).rest().len(),
    ensures
        final(context).wf(),
        final(context).bytes@ == old(context).bytes@,
        read_result::<Vec<AnnotationElementValueInfo>>(
            spec_read_element_values(old(context).rest(), n as nat),
            r,
            old(context).index,
            final(context).index,
        ),
    decreases len, 1nat, n,
{
    let ghost s = context.rest();
    let ghost start = context.index;
    let mut vec: Vec<AnnotationElementValueInfo> = Vec::new();
    let mut i: u16 = 0;
    proof {
        lemma_element_values_total(s, n as nat);
        assert(context.rest() =~= s.skip(0));
        assert(vec.deep_view() =~= Seq::<SpecAnnotationElementValueInfo>::empty());
        if let Parsed::Done(v, k) = spec_read_element_values(s, n as nat) {
            assert(Seq::<SpecAnnotationElementValueInfo>::empty() + v =~= v);
        }
    }
    while i < n
        invariant
            context.wf(),
            context.bytes@ == old(context).bytes@,
            start == old(context).index,
            s == old(context).rest(),
            len == s.len(),
            context.index >= start,
            context.rest() == s.skip(context.index - start),
            i <= n,
            spec_read_element_values(s, n as nat) == prepend(
                vec.deep_view(),
                (context.index - start) as nat,
                spec_read_element_values(context.rest(), (n - i) as nat),
            ),
            !(spec_read_element_values(s, n as nat) is Abort),
        decreases n - i,
    {
        let ghost rest = context.rest();
        let ghost before = context.index;
        let ghost acc = vec.deep_view();
        proof {
            lemma_element_value_total(rest);
            lemma_element_values_total(rest, (n - i) as nat);
        }
        let v = read_element_value(context, Ghost(rest.len()))?;
        vec.push(v);
        proof {
            let k = (context.index - before) as nat;
            assert(context.rest() =~= rest.skip(k as int));
            assert(context.rest() == s.skip(context.index - start));
            assert(vec.deep_view() =~= acc.push(v.deep_view()));
            let p = spec_read_element_values(context.rest(), (n - i - 1) as nat);
            lemma_element_values_total(context.rest(), (n - i - 1) as nat);
            if let Parsed::Done(vs, m) = p {
                assert(acc + (seq![v.deep_view()] + vs) =~= vec.deep_view() + vs);
            }
        }
        i = i + 1;
    }
    proof {
        assert(vec.deep_view() + Seq::<SpecAnnotationElementValueInfo>::empty() =~= vec.deep_view());
    }
    Ok(vec)
}

/// Reads an annotation, as [spec_read_annotation] says; `len` is the number of bytes left.
pub fn read_annotation(context: &mut ReadContext, Ghost(len): Ghost<nat>) -> (r: AsmResult<AnnotationInfo>)
    requires
        old(context).wf(),
        len == old(context).rest().len(),
    ensures
        final(context).wf(),
        final(context).bytes@ == old(context).bytes@,
        read_result::<AnnotationInfo>(spec_read_annotation(old(context).rest()), r, old(context).index, final(context).index),
    decreases len, 0nat, 0nat,
{
    let ghost s = context.rest();
    proof {
        lemma_annotation_total(s);
    }
    let type_index: u16 = context.read()?;
    proof {
        assert(context.rest() =~= s.skip(2));
    }
    let num_element_value_pairs: u16 = context.read()?;
    proof {
        assert(context.rest() =~= s.skip(4));
    }
    let element_value_pairs = read_elements(context, num_element_value_pairs, Ghost((len - 4) as nat))?;
    proof {
        assert(element_value_pairs.deep_view() =~= elements_view(element_value_pairs@));
    }
    Ok(AnnotationInfo { type_index, num_element_value_pairs, element_value_pairs })
}

/// Reads an element-value pair, as [spec_read_element] says; `len` is the number of bytes left.
pub fn read_element(context: &mut ReadContext, Ghost(len): Ghost<nat>) -> (r: AsmResult<AnnotationElement>)
    requires
        old(context).wf(),
        len == old(context).rest().len(),
    ensures
        final(context).wf(),
        final(context).bytes@ == old(context).bytes@,
        read_result::<AnnotationElement>(spec_read_element(old(context).rest()), r, old(context).index, final(context).index),
    decreases len, 0nat, 0nat,
{
    let ghost s = context.rest();
    proof {
        lemma_element_total(s);
    }
    let element_name_index: u16 = context.read()?;
    proof {
        assert(context.rest() =~= s.skip(2));
    }
    let value = read_element_value(context, Ghost((len - 2) as nat))?;
    Ok(AnnotationElement { element_name_index, value })
}

/// Reads `n` element-value pairs one after another; `len` is the number of bytes left.
pub fn read_elements(context: &mut ReadContext, n: u16, Ghost(len): Ghost<nat>) -> (r: AsmResult<Vec<AnnotationElement>>)
    requires
        old(context).wf(),
        len == old(context).rest().len(),
    ensures
        final(context).wf(),
        final(context).bytes@ == old(context).bytes@,
        read_result::<Vec<AnnotationElement>>(
            spec_read_elements(old(context).rest(), n as nat),
            r,
            old(context).index,
            final(context).index,
        ),
    decreases len, 1nat, n,
{
    let ghost s = context.rest();
    let ghost start = context.index;
    let mut vec: Vec<AnnotationElement> = Vec::new();
    let mut i: u16 = 0;
    proof {
        lemma_elements_total(s, n as nat);
        assert(context.rest() =~= s.skip(0));
        assert(vec.deep_view() =~= Seq::<SpecAnnotationElement>::empty());
        if let Parsed::Done(v, k) = spec_read_elements(s, n as nat) {
            assert(Seq::<SpecAnnotationElement>::empty() + v =~= v);
        }
    }
    while i < n
        invariant
            context.wf(),
            context.bytes@ == old(context).bytes@,
            start == old(context).index,
            s == old(context).rest(),
            len == s.len(),
            context.index >= start,
            context.rest() == s.skip(context.index - start),
            i <= n,
            spec_read_elements(s, n as nat) == prepend(
                vec.deep_view(),
                (context.index - start) as nat,
                spec_read_elements(context.rest(), (n - i) as nat),
            ),
            !(spec_read_elements(s, n as nat) is Abort),
        decreases n - i,
    {
        let ghost rest = context.rest();
        let ghost before = context.index;
        let ghost acc = vec.deep_view();
        proof {
            lemma_element_total(rest);
            lemma_elements_total(rest, (n - i) as nat);
        }
        let e = read_element(context, Ghost(rest.len()))?;
        vec.push(e);
        proof {
            let k = (context.index - before) as nat;
            assert(context.rest() =~= rest.skip(k as int));
            assert(context.rest() == s.skip(context.index - start));
            assert(vec.deep_view() =~= acc.push(e.deep_view()));
            let p = spec_read_elements(context.rest(), (n - i - 1) as nat);
            lemma_elements_total(context.rest(), (n - i - 1) as nat);
            if let Parsed::Done(es, m) = p {
                assert(acc + (seq![e.deep_view()] + es) =~= vec.deep_view() + es);
            }
        }
        i = i + 1;
    }
    proof {
        assert(vec.deep_view() + Seq::<SpecAnnotationElement>::empty() =~= vec.deep_view());
    }
    Ok(vec)
}

impl FromReadContext for AnnotationInfo {
    open spec fn spec_read(s: Seq<u8>) -> Parsed<SpecAnnotationInfo> {
        spec_read_annotation(s)
    }

    proof fn lemma_read_len(s: Seq<u8>) {
        lemma_annotation_total(s);
    }

    fn from_context(context: &mut ReadContext) -> (r: AsmResult<AnnotationInfo>) {
        let ghost len = context.rest().len();
        read_annotation(context, Ghost(len))
    }
}

impl FromReadContext for ParameterAnnotationInfo {
    /// Reads the annotations of one parameter: their count, then each of them.
    open spec fn spec_read(s: Seq<u8>) -> Parsed<SpecParameterAnnotationInfo> {
        match spec_read_counted::<AnnotationInfo>(s) {
            Parsed::Done(c, k) => Parsed::Done(SpecParameterAnnotationInfo { num_annotations: c.0, annotations: c.1 }, k),
            Parsed::Fail(e) => Parsed::Fail(e),
            Parsed::Abort => Parsed::Abort,
        }
    }

    proof fn lemma_read_len(s: Seq<u8>) {
        lemma_counted_len::<AnnotationInfo>(s);
    }

    fn from_context(context: &mut ReadContext) -> (r: AsmResult<ParameterAnnotationInfo>) {
        proof {
            lemma_annotations_total();
            lemma_counted_total::<AnnotationInfo>(context.rest());
        }
        let (num_annotations, annotations) = read_counted::<AnnotationInfo>(context)?;
        proof {
            assert(annotations.deep_view() =~= annotations_view(annotations@));
        }
        Ok(ParameterAnnotationInfo { num_annotations, annotations })
    }
}

/// Reading an annotation never aborts.
pub proof fn lemma_annotations_total()
    ensures
        forall|t: Seq<u8>| !(#[trigger] AnnotationInfo::spec_read(t) is Abort),
{
    assert forall|t: Seq<u8>| !(#[trigger] AnnotationInfo::spec_read(t) is Abort) by {
        lemma_annotation_total(t);
    }
}

/// Reading the annotations of a parameter never aborts.
pub proof fn lemma_parameter_annotations_total()
    ensures
        forall|t: Seq<u8>| !(#[trigger] ParameterAnnotationInfo::spec_read(t) is Abort),
{
    lemma_annotations_total();
    assert forall|t: Seq<u8>| !(#[trigger] ParameterAnnotationInfo::spec_read(t) is Abort) by {
        lemma_counted_total::<AnnotationInfo>(t);
    }
}

/// What reading the target of a type annotation of target type `target_type` gives, as
/// JVMS tables 4.7.20-A and 4.7.20-B lay it out.
pub open spec fn spec_read_target_info(target_type: u8, s: Seq<u8>) -> Parsed<SpecTypeAnnotationTargetInfo> {
    let t = target_type;
    if t == 0x00 || t == 0x01 {
        if s.len() < 1 {
            Parsed::Fail(AsmErr::OutOfRange)
        } else {
            Parsed::Done(SpecTypeAnnotationTargetInfo::TypeParameter { type_parameter_index: s[0] }, 1)
        }
    } else if t == 0x10 {
        if s.len() < 2 {
            Parsed::Fail(AsmErr::OutOfRange)
        } else {
            Parsed::Done(SpecTypeAnnotationTargetInfo::SuperType { supertype_index: be_u16(s[0], s[1]) }, 2)
        }
    } else if t == 0x11 || t == 0x12 {
        if s.len() < 2 {
            Parsed::Fail(AsmErr::OutOfRange)
        } else {
            Parsed::Done(
                SpecTypeAnnotationTargetInfo::TypeParameterBound { type_parameter_index: s[0], bound_index: s[1] },
                2,
            )
        }
    } else if 0x13 <= t <= 0x15 {
        Parsed::Done(SpecTypeAnnotationTargetInfo::Empty, 0)
    } else if t == 0x16 {
        if s.len() < 1 {
            Parsed::Fail(AsmErr::OutOfRange)
        } else {
            Parsed::Done(SpecTypeAnnotationTargetInfo::FormalParameter { formal_parameter_index: s[0] }, 1)
        }
    } else if t == 0x17 {
        if s.len() < 2 {
            Parsed::Fail(AsmErr::OutOfRange)
        } else {
            Parsed::Done(SpecTypeAnnotationTargetInfo::Throws { throws_type_index: be_u16(s[0], s[1]) }, 2)
        }
    } else if t == 0x40 || t == 0x41 {
        match spec_read_counted::<TypeAnnotationTargetInfoLocalVarTable>(s) {
            Parsed::Done(c, k) => Parsed::Done(SpecTypeAnnotationTargetInfo::LocalVar { table_length: c.0, table: c.1 }, k),
            Parsed::Fail(e) => Parsed::Fail(e),
            Parsed::Abort => Parsed::Abort,
        }
    } else if t == 0x42 {
        if s.len() < 2 {
            Parsed::Fail(AsmErr::OutOfRange)
        } else {
            Parsed::Done(SpecTypeAnnotationTargetInfo::Catch { exception_table_index: be_u16(s[0], s[1]) }, 2)
        }
    } else if 0x43 <= t <= 0x46 {
        if s.len() < 2 {
            Parsed::Fail(AsmErr::OutOfRange)
        } else {
            Parsed::Done(SpecTypeAnnotationTargetInfo::Offset { offset: be_u16(s[0], s[1]) }, 2)
        }
    } else if 0x47 <= t <= 0x4B {
        if s.len() < 3 {
            Parsed::Fail(AsmErr::OutOfRange)
        } else {
            Parsed::Done(
                SpecTypeAnnotationTargetInfo::TypeArgument { offset: be_u16(s[0], s[1]), type_argument_index: s[2] },
                3,
            )
        }
    } else {
        Parsed::Fail(AsmErr::UnknownTargetType(t))
    }
}

/// Reading the target of a type annotation never aborts, and takes no more bytes than there are.
pub proof fn lemma_target_info_total(t: u8, s: Seq<u8>)
    ensures
        !(spec_read_target_info(t, s) is Abort),
        spec_read_target_info(t, s) matches Parsed::Done(_, k) ==> k <= s.len(),
{
    crate::jvms::attr::annotation_tables::lemma_fixed_tables_total();
    lemma_counted_total::<TypeAnnotationTargetInfoLocalVarTable>(s);
    lemma_counted_len::<TypeAnnotationTargetInfoLocalVarTable>(s);
}

/// Reads the target of a type annotation of target type `target_type`.
pub fn read_target_info(context: &mut ReadContext, target_type: u8) -> (r: AsmResult<TypeAnnotationTargetInfo>)
    requires
        old(context).wf(),
    ensures
        final(context).wf(),
        final(context).bytes@ == old(context).bytes@,
        match spec_read_target_info(target_type, old(context).rest()) {
            Parsed::Done(v, n) => r matches Ok(x) && crate::jvms::attr::annotation::target_info_view(x) == v
                && final(context).index == old(context).index + n,
            Parsed::Fail(e) => r == Err::<TypeAnnotationTargetInfo, AsmErr>(e),
            Parsed::Abort => false,
        },
{
    let ghost s = context.rest();
    proof {
        lemma_target_info_total(target_type, s);
    }
    let t = target_type;
    if t == 0x00 || t == 0x01 {
        let type_parameter_index: u8 = context.read()?;
        Ok(TypeAnnotationTargetInfo::TypeParameter { type_parameter_index })
    } else if t == 0x10 {
        let supertype_index: u16 = context.read()?;
        Ok(TypeAnnotationTargetInfo::SuperType { supertype_index })
    } else if t == 0x11 || t == 0x12 {
        let type_parameter_index: u8 = context.read()?;
        proof {
            assert(context.rest() =~= s.skip(1));
        }
        let bound_index: u8 = context.read()?;
        Ok(TypeAnnotationTargetInfo::TypeParameterBound { type_parameter_index, bound_index })
    } else if 0x13 <= t && t <= 0x15 {
        Ok(TypeAnnotationTargetInfo::Empty)
    } else if t == 0x16 {
        let formal_parameter_index: u8 = context.read()?;
        Ok(TypeAnnotationTargetInfo::FormalParameter { formal_parameter_index })
    } else if t == 0x17 {
        let throws_type_index: u16 = context.read()?;
        Ok(TypeAnnotationTargetInfo::Throws { throws_type_index })
    } else if t == 0x40 || t == 0x41 {
        let (table_length, table) = read_counted::<TypeAnnotationTargetInfoLocalVarTable>(context)?;
        proof {
            assert(table.deep_view() =~= table@);
        }
        Ok(TypeAnnotationTargetInfo::LocalVar { table_length, table })
    } else if t == 0x42 {
        let exception_table_index: u16 = context.read()?;
        Ok(TypeAnnotationTargetInfo::Catch { exception_table_index })
    } else if 0x43 <= t && t <= 0x46 {
        let offset: u16 = context.read()?;
        Ok(TypeAnnotationTargetInfo::Offset { offset })
    } else if 0x47 <= t && t <= 0x4B {
        let offset: u16 = context.read()?;
        proof {
            assert(context.rest() =~= s.skip(2));
        }
        let type_argument_index: u8 = context.read()?;
        Ok(TypeAnnotationTargetInfo::TypeArgument { offset, type_argument_index })
    } else {
        Err(AsmErr::UnknownTargetType(t))
    }
}

/// What reading a type annotation gives: its target type and target, its type path, its
/// type index, and its counted element-value pairs.
pub open spec fn spec_read_type_annotation(s: Seq<u8>) -> Parsed<SpecTypeAnnotation> {
    if s.len() < 1 {
        Parsed::Fail(AsmErr::OutOfRange)
    } else {
        let tt = s[0];
        match spec_read_target_info(tt, s.skip(1)) {
            Parsed::Done(ti, n1) => {
                let p: int = 1 + n1 as int;
                if s.len() < p + 1 {
                    Parsed::Fail(AsmErr::OutOfRange)
                } else {
                    let pl = s[p];
                    match spec_read_vec::<TypeAnnotationTargetPathInfo>(s.skip(p + 1), pl as nat) {
                        Parsed::Done(path, n2) => {
                            let q: int = p + 1 + n2 as int;
                            if s.len() < q + 4 {
                                Parsed::Fail(AsmErr::OutOfRange)
                            } else {
                                let num = be_u16(s[q + 2], s[q + 3]);
                                match spec_read_elements(s.skip(q + 4), num as nat) {
                                    Parsed::Done(pairs, n3) => Parsed::Done(
                                        SpecTypeAnnotation {
                                            target_type: tt,
                                            target_info: ti,
                                            target_path: SpecTypeAnnotationTargetPath { path_length: pl, path },
                                            type_index: be_u16(s[q], s[q + 1]),
                                            num_element_value_pairs: num,
                                            element_value_pairs: pairs,
                                        },
                                        (q + 4 + n3) as nat,
                                    ),
                                    Parsed::Fail(e) => Parsed::Fail(e),
                                    Parsed::Abort => Parsed::Abort,
                                }
                            }
                        },
                        Parsed::Fail(e) => Parsed::Fail(e),
                        Parsed::Abort => Parsed::Abort,
                    }
                }
            },
            Parsed::Fail(e) => Parsed::Fail(e),
            Parsed::Abort => Parsed::Abort,
        }
    }
}

impl FromReadContext for TypeAnnotation {
    open spec fn spec_read(s: Seq<u8>) -> Parsed<SpecTypeAnnotation> {
        spec_read_type_annotation(s)
    }

    proof fn lemma_read_len(s: Seq<u8>) {
        if s.len() >= 1 {
            lemma_target_info_total(s[0], s.skip(1));
            if let Parsed::Done(_, n1) = spec_read_target_info(s[0], s.skip(1)) {
                let p: int = 1 + n1 as int;
                if s.len() >= p + 1 {
                    lemma_read_vec_len::<TypeAnnotationTargetPathInfo>(s.skip(p + 1), s[p] as nat);
                    if let Parsed::Done(_, n2) = spec_read_vec::<TypeAnnotationTargetPathInfo>(
                        s.skip(p + 1),
                        s[p] as nat,
                    ) {
                        let q: int = p + 1 + n2 as int;
                        if s.len() >= q + 4 {
                            lemma_elements_total(s.skip(q + 4), be_u16(s[q + 2], s[q + 3]) as nat);
                        }
                    }
                }
            }
        }
    }

    fn from_context(context: &mut ReadContext) -> (r: AsmResult<TypeAnnotation>) {
        let ghost s = context.rest();
        let ghost start = context.index;
        let target_type: u8 = context.read()?;
        proof {
            assert(context.rest() =~= s.skip(1));
        }
        let target_info = read_target_info(context, target_type)?;
        proof {
            assert(context.rest() =~= s.skip(context.index - start));
            crate::jvms::attr::annotation_tables::lemma_fixed_tables_total();
        }
        let path_length: u8 = context.read()?;
        proof {
            assert(context.rest() =~= s.skip(context.index - start));
            lemma_read_vec_total::<TypeAnnotationTargetPathInfo>(context.rest(), path_length as nat);
        }
        let path = context.read_vec::<TypeAnnotationTargetPathInfo>(path_length as usize)?;
        proof {
            assert(context.rest() =~= s.skip(context.index - start));
        }
        let type_index: u16 = context.read()?;
        proof {
            assert(context.rest() =~= s.skip(context.index - start));
        }
        let num_element_value_pairs: u16 = context.read()?;
        proof {
            assert(context.rest() =~= s.skip(context.index - start));
        }
        let ghost len = context.rest().len();
        let element_value_pairs = read_elements(context, num_element_value_pairs, Ghost(len))?;
        proof {
            assert(path.deep_view() =~= path@);
            assert(element_value_pairs.deep_view() =~= elements_view(element_value_pairs@));
        }
        Ok(TypeAnnotation {
            target_type,
            target_info,
            target_path: TypeAnnotationTargetPath { path_length, path },
            type_index,
            num_element_value_pairs,
            element_value_pairs,
        })
    }
}

/// Reading a type annotation never aborts.
pub proof fn lemma_type_annotations_total()
    ensures
        forall|t: Seq<u8>| !(#[trigger] TypeAnnotation::spec_read(t) is Abort),
{
    assert forall|s: Seq<u8>| !(#[trigger] TypeAnnotation::spec_read(s) is Abort) by {
        crate::jvms::attr::annotation_tables::lemma_fixed_tables_total();
        if s.len() >= 1 {
            lemma_target_info_total(s[0], s.skip(1));
            if let Parsed::Done(_, n1) = spec_read_target_info(s[0], s.skip(1)) {
                let p: int = 1 + n1 as int;
                if s.len() >= p + 1 {
                    lemma_read_vec_total::<TypeAnnotationTargetPathInfo>(s.skip(p + 1), s[p] as nat);
                    if let Parsed::Done(_, n2) = spec_read_vec::<TypeAnnotationTargetPathInfo>(
                        s.skip(p + 1),
                        s[p] as nat,
                    ) {
                        let q: int = p + 1 + n2 as int;
                        if s.len() >= q + 4 {
                            lemma_elements_total(s.skip(q + 4), be_u16(s[q + 2], s[q + 3]) as nat);
                        }
                    }
                }
            }
        }
    }
}

} // verus!
