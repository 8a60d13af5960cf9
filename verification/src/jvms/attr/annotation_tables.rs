//! Reading and writing the fixed-size parts of type annotations.

use crate::err::{AsmErr, AsmResult};
use crate::jvms::attr::annotation::{TypeAnnotationTargetInfoLocalVarTable, TypeAnnotationTargetPathInfo};
use crate::jvms::read::bytes::{be_u16, FromReadContext, Parsed, ReadContext};
use crate::jvms::wire::{lemma_u16_bytes, Codec};
use crate::jvms::write::bytes::{u16_bytes, FromWriteContext, WriteContext};
use vstd::prelude::*;

verus! {

impl DeepView for TypeAnnotationTargetInfoLocalVarTable {
    type V = TypeAnnotationTargetInfoLocalVarTable;

    open spec fn deep_view(&self) -> TypeAnnotationTargetInfoLocalVarTable {
        *self
    }
}

impl FromReadContext for TypeAnnotationTargetInfoLocalVarTable {
    open spec fn spec_read(s: Seq<u8>) -> Parsed<TypeAnnotationTargetInfoLocalVarTable> {
        if s.len() < 6 {
            Parsed::Fail(AsmErr::OutOfRange)
        } else {
            Parsed::Done(
                TypeAnnotationTargetInfoLocalVarTable {
                    start_pc: be_u16(s[0], s[1]),
                    length: be_u16(s[2], s[3]),
                    index: be_u16(s[4], s[5]),
                },
                6,
            )
        }
    }

    proof fn lemma_read_len(s: Seq<u8>) {
    }

    fn from_context(context: &mut ReadContext) -> (r: AsmResult<TypeAnnotationTargetInfoLocalVarTable>) {
        let ghost s = context.rest();
        let start_pc: u16 = context.read()?;
        proof {
            assert(context.rest() =~= s.skip(2));
        }
        let length: u16 = context.read()?;
        proof {
            assert(context.rest() =~= s.skip(4));
        }
        let index: u16 = context.read()?;
        Ok(TypeAnnotationTargetInfoLocalVarTable { start_pc, length, index })
    }
}

impl FromWriteContext for TypeAnnotationTargetInfoLocalVarTable {
    open spec fn spec_write(v: TypeAnnotationTargetInfoLocalVarTable) -> Seq<u8> {
        u16_bytes(v.start_pc) + u16_bytes(v.length) + u16_bytes(v.index)
    }

    fn into_context(context: &mut WriteContext, from: &TypeAnnotationTargetInfoLocalVarTable) {
        context.push(&from.start_pc);
        context.push(&from.length);
        context.push(&from.index);
    }
}

impl Codec for TypeAnnotationTargetInfoLocalVarTable {
    open spec fn spec_wf(v: TypeAnnotationTargetInfoLocalVarTable) -> bool {
        true
    }

    proof fn lemma_roundtrip(v: TypeAnnotationTargetInfoLocalVarTable, rest: Seq<u8>) {
        let b = Self::spec_write(v) + rest;
        lemma_u16_bytes(v.start_pc);
        lemma_u16_bytes(v.length);
        lemma_u16_bytes(v.index);
        assert(b[0] == u16_bytes(v.start_pc)[0] && b[1] == u16_bytes(v.start_pc)[1]);
        assert(b[2] == u16_bytes(v.length)[0] && b[3] == u16_bytes(v.length)[1]);
        assert(b[4] == u16_bytes(v.index)[0] && b[5] == u16_bytes(v.index)[1]);
    }
}

impl DeepView for TypeAnnotationTargetPathInfo {
    type V = TypeAnnotationTargetPathInfo;

    open spec fn deep_view(&self) -> TypeAnnotationTargetPathInfo {
        *self
    }
}

impl FromReadContext for TypeAnnotationTargetPathInfo {
    open spec fn spec_read(s: Seq<u8>) -> Parsed<TypeAnnotationTargetPathInfo> {
        if s.len() < 2 {
            Parsed::Fail(AsmErr::OutOfRange)
        } else {
            Parsed::Done(TypeAnnotationTargetPathInfo { type_path_kind: s[0], type_argument_index: s[1] }, 2)
        }
    }

    proof fn lemma_read_len(s: Seq<u8>) {
    }

    fn from_context(context: &mut ReadContext) -> (r: AsmResult<TypeAnnotationTargetPathInfo>) {
        let ghost s = context.rest();
        let type_path_kind: u8 = context.read()?;
        proof {
            assert(context.rest() =~= s.skip(1));
        }
        let type_argument_index: u8 = context.read()?;
        Ok(TypeAnnotationTargetPathInfo { type_path_kind, type_argument_index })
    }
}

impl FromWriteContext for TypeAnnotationTargetPathInfo {
    open spec fn spec_write(v: TypeAnnotationTargetPathInfo) -> Seq<u8> {
        seq![v.type_path_kind, v.type_argument_index]
    }

    fn into_context(context: &mut WriteContext, from: &TypeAnnotationTargetPathInfo) {
        let ghost start = context.bytes@;
        context.push(&from.type_path_kind);
        context.push(&from.type_argument_index);
        proof {
            assert(context.bytes@ =~= start + seq![from.type_path_kind, from.type_argument_index]);
        }
    }
}

impl Codec for TypeAnnotationTargetPathInfo {
    open spec fn spec_wf(v: TypeAnnotationTargetPathInfo) -> bool {
        true
    }

    proof fn lemma_roundtrip(v: TypeAnnotationTargetPathInfo, rest: Seq<u8>) {
        let b = Self::spec_write(v) + rest;
        assert(b[0] == v.type_path_kind && b[1] == v.type_argument_index);
    }
}

/// Reading the fixed-size parts of type annotations never aborts.
pub proof fn lemma_fixed_tables_total()
    ensures
        forall|t: Seq<u8>| !(#[trigger] TypeAnnotationTargetInfoLocalVarTable::spec_read(t) is Abort),
        forall|t: Seq<u8>| !(#[trigger] TypeAnnotationTargetPathInfo::spec_read(t) is Abort),
{
}

} // verus!
