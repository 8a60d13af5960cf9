//! Reading and writing the fixed-size tables of attributes: each is a run of `u2` fields.

use crate::err::{AsmErr, AsmResult};
use crate::jvms::attr::module::{
    ModuleExports, ModuleOpens, ModuleProvides, ModuleRequires, SpecModuleExports, SpecModuleOpens,
    SpecModuleProvides,
};
use crate::jvms::attr::{
    BootstrapMethod, ExceptionTable, InnerClassInfo, LineNumberTableInfo, LocalVariableTableInfo,
    LocalVariableTypeTableInfo, MethodParameter, SpecBootstrapMethod, SpecStackMapFrame, StackMapFrame,
    VerificationTypeInfo,
};
use crate::jvms::read::bytes::{
    be_u16, lemma_read_vec_len, lemma_read_vec_stuck, spec_read_vec, FromReadContext, Parsed, ReadContext,
};
use crate::jvms::read::jvms_reader::lemma_members_never_abort;
use crate::jvms::wire::{all_wf, lemma_u16_bytes, lemma_vec_roundtrip, Codec};
use crate::jvms::write::bytes::{spec_write_vec, u16_bytes, FromWriteContext, WriteContext};
use vstd::prelude::*;

verus! {

impl DeepView for ExceptionTable {
    type V = ExceptionTable;

    open spec fn deep_view(&self) -> ExceptionTable {
        *self
    }
}

impl FromReadContext for ExceptionTable {
    open spec fn spec_read(s: Seq<u8>) -> Parsed<ExceptionTable> {
        if s.len() < 8 {
            Parsed::Fail(AsmErr::OutOfRange)
        } else {
            Parsed::Done(ExceptionTable { start_pc: be_u16(s[0], s[1]), end_pc: be_u16(s[2], s[3]), handler_pc: be_u16(s[4], s[5]), catch_type: be_u16(s[6], s[7]) }, 8)
        }
    }

    proof fn lemma_read_len(s: Seq<u8>) {
    }

    fn from_context(context: &mut ReadContext) -> (r: AsmResult<ExceptionTable>) {
        let ghost s = context.rest();
        let start_pc: u16 = context.read()?;
        proof {
            assert(context.rest() =~= s.skip(2));
        }
        let end_pc: u16 = context.read()?;
        proof {
            assert(context.rest() =~= s.skip(4));
        }
        let handler_pc: u16 = context.read()?;
        proof {
            assert(context.rest() =~= s.skip(6));
        }
        let catch_type: u16 = context.read()?;
        Ok(ExceptionTable { start_pc, end_pc, handler_pc, catch_type })
    }
}

impl FromWriteContext for ExceptionTable {
    open spec fn spec_write(v: ExceptionTable) -> Seq<u8> {
        u16_bytes(v.start_pc) + u16_bytes(v.end_pc) + u16_bytes(v.handler_pc) + u16_bytes(v.catch_type)
    }

    fn into_context(context: &mut WriteContext, from: &ExceptionTable) {
        context.push(&from.start_pc);
        context.push(&from.end_pc);
        context.push(&from.handler_pc);
        context.push(&from.catch_type);
    }
}

impl Codec for ExceptionTable {
    open spec fn spec_wf(v: ExceptionTable) -> bool {
        true
    }

    proof fn lemma_roundtrip(v: ExceptionTable, rest: Seq<u8>) {
        let b = Self::spec_write(v) + rest;
        lemma_u16_bytes(v.start_pc);
        lemma_u16_bytes(v.end_pc);
        lemma_u16_bytes(v.handler_pc);
        lemma_u16_bytes(v.catch_type);
        assert(b[0] == u16_bytes(v.start_pc)[0] && b[1] == u16_bytes(v.start_pc)[1]);
        assert(b[2] == u16_bytes(v.end_pc)[0] && b[3] == u16_bytes(v.end_pc)[1]);
        assert(b[4] == u16_bytes(v.handler_pc)[0] && b[5] == u16_bytes(v.handler_pc)[1]);
        assert(b[6] == u16_bytes(v.catch_type)[0] && b[7] == u16_bytes(v.catch_type)[1]);
    }
}

impl DeepView for InnerClassInfo {
    type V = InnerClassInfo;

    open spec fn deep_view(&self) -> InnerClassInfo {
        *self
    }
}

impl FromReadContext for InnerClassInfo {
    open spec fn spec_read(s: Seq<u8>) -> Parsed<InnerClassInfo> {
        if s.len() < 8 {
            Parsed::Fail(AsmErr::OutOfRange)
        } else {
            Parsed::Done(InnerClassInfo { inner_class_info_index: be_u16(s[0], s[1]), outer_class_info_index: be_u16(s[2], s[3]), inner_name_index: be_u16(s[4], s[5]), inner_class_access_flags: be_u16(s[6], s[7]) }, 8)
        }
    }

    proof fn lemma_read_len(s: Seq<u8>) {
    }

    fn from_context(context: &mut ReadContext) -> (r: AsmResult<InnerClassInfo>) {
        let ghost s = context.rest();
        let inner_class_info_index: u16 = context.read()?;
        proof {
            assert(context.rest() =~= s.skip(2));
        }
        let outer_class_info_index: u16 = context.read()?;
        proof {
            assert(context.rest() =~= s.skip(4));
        }
        let inner_name_index: u16 = context.read()?;
        proof {
            assert(context.rest() =~= s.skip(6));
        }
        let inner_class_access_flags: u16 = context.read()?;
        Ok(InnerClassInfo { inner_class_info_index, outer_class_info_index, inner_name_index, inner_class_access_flags })
    }
}

impl FromWriteContext for InnerClassInfo {
    open spec fn spec_write(v: InnerClassInfo) -> Seq<u8> {
        u16_bytes(v.inner_class_info_index) + u16_bytes(v.outer_class_info_index) + u16_bytes(v.inner_name_index) + u16_bytes(v.inner_class_access_flags)
    }

    fn into_context(context: &mut WriteContext, from: &InnerClassInfo) {
        context.push(&from.inner_class_info_index);
        context.push(&from.outer_class_info_index);
        context.push(&from.inner_name_index);
        context.push(&from.inner_class_access_flags);
    }
}

impl Codec for InnerClassInfo {
    open spec fn spec_wf(v: InnerClassInfo) -> bool {
        true
    }

    proof fn lemma_roundtrip(v: InnerClassInfo, rest: Seq<u8>) {
        let b = Self::spec_write(v) + rest;
        lemma_u16_bytes(v.inner_class_info_index);
        lemma_u16_bytes(v.outer_class_info_index);
        lemma_u16_bytes(v.inner_name_index);
        lemma_u16_bytes(v.inner_class_access_flags);
        assert(b[0] == u16_bytes(v.inner_class_info_index)[0] && b[1] == u16_bytes(v.inner_class_info_index)[1]);
        assert(b[2] == u16_bytes(v.outer_class_info_index)[0] && b[3] == u16_bytes(v.outer_class_info_index)[1]);
        assert(b[4] == u16_bytes(v.inner_name_index)[0] && b[5] == u16_bytes(v.inner_name_index)[1]);
        assert(b[6] == u16_bytes(v.inner_class_access_flags)[0] && b[7] == u16_bytes(v.inner_class_access_flags)[1]);
    }
}

impl DeepView for LineNumberTableInfo {
    type V = LineNumberTableInfo;

    open spec fn deep_view(&self) -> LineNumberTableInfo {
        *self
    }
}

impl FromReadContext for LineNumberTableInfo {
    open spec fn spec_read(s: Seq<u8>) -> Parsed<LineNumberTableInfo> {
        if s.len() < 4 {
            Parsed::Fail(AsmErr::OutOfRange)
        } else {
            Parsed::Done(LineNumberTableInfo { start_pc: be_u16(s[0], s[1]), line_number: be_u16(s[2], s[3]) }, 4)
        }
    }

    proof fn lemma_read_len(s: Seq<u8>) {
    }

    fn from_context(context: &mut ReadContext) -> (r: AsmResult<LineNumberTableInfo>) {
        let ghost s = context.rest();
        let start_pc: u16 = context.read()?;
        proof {
            assert(context.rest() =~= s.skip(2));
        }
        let line_number: u16 = context.read()?;
        Ok(LineNumberTableInfo { start_pc, line_number })
    }
}

impl FromWriteContext for LineNumberTableInfo {
    open spec fn spec_write(v: LineNumberTableInfo) -> Seq<u8> {
        u16_bytes(v.start_pc) + u16_bytes(v.line_number)
    }

    fn into_context(context: &mut WriteContext, from: &LineNumberTableInfo) {
        context.push(&from.start_pc);
        context.push(&from.line_number);
    }
}

impl Codec for LineNumberTableInfo {
    open spec fn spec_wf(v: LineNumberTableInfo) -> bool {
        true
    }

    proof fn lemma_roundtrip(v: LineNumberTableInfo, rest: Seq<u8>) {
        let b = Self::spec_write(v) + rest;
        lemma_u16_bytes(v.start_pc);
        lemma_u16_bytes(v.line_number);
        assert(b[0] == u16_bytes(v.start_pc)[0] && b[1] == u16_bytes(v.start_pc)[1]);
        assert(b[2] == u16_bytes(v.line_number)[0] && b[3] == u16_bytes(v.line_number)[1]);
    }
}

impl DeepView for LocalVariableTableInfo {
    type V = LocalVariableTableInfo;

    open spec fn deep_view(&self) -> LocalVariableTableInfo {
        *self
    }
}

impl FromReadContext for LocalVariableTableInfo {
    open spec fn spec_read(s: Seq<u8>) -> Parsed<LocalVariableTableInfo> {
        if s.len() < 10 {
            Parsed::Fail(AsmErr::OutOfRange)
        } else {
            Parsed::Done(LocalVariableTableInfo { start_pc: be_u16(s[0], s[1]), length: be_u16(s[2], s[3]), name_index: be_u16(s[4], s[5]), descriptor_index: be_u16(s[6], s[7]), index: be_u16(s[8], s[9]) }, 10)
        }
    }

    proof fn lemma_read_len(s: Seq<u8>) {
    }

    fn from_context(context: &mut ReadContext) -> (r: AsmResult<LocalVariableTableInfo>) {
        let ghost s = context.rest();
        let start_pc: u16 = context.read()?;
        proof {
            assert(context.rest() =~= s.skip(2));
        }
        let length: u16 = context.read()?;
        proof {
            assert(context.rest() =~= s.skip(4));
        }
        let name_index: u16 = context.read()?;
        proof {
            assert(context.rest() =~= s.skip(6));
        }
        let descriptor_index: u16 = context.read()?;
        proof {
            assert(context.rest() =~= s.skip(8));
        }
        let index: u16 = context.read()?;
        Ok(LocalVariableTableInfo { start_pc, length, name_index, descriptor_index, index })
    }
}

impl FromWriteContext for LocalVariableTableInfo {
    open spec fn spec_write(v: LocalVariableTableInfo) -> Seq<u8> {
        u16_bytes(v.start_pc) + u16_bytes(v.length) + u16_bytes(v.name_index) + u16_bytes(v.descriptor_index) + u16_bytes(v.index)
    }

    fn into_context(context: &mut WriteContext, from: &LocalVariableTableInfo) {
        context.push(&from.start_pc);
        context.push(&from.length);
        context.push(&from.name_index);
        context.push(&from.descriptor_index);
        context.push(&from.index);
    }
}

impl Codec for LocalVariableTableInfo {
    open spec fn spec_wf(v: LocalVariableTableInfo) -> bool {
        true
    }

    proof fn lemma_roundtrip(v: LocalVariableTableInfo, rest: Seq<u8>) {
        let b = Self::spec_write(v) + rest;
        lemma_u16_bytes(v.start_pc);
        lemma_u16_bytes(v.length);
        lemma_u16_bytes(v.name_index);
        lemma_u16_bytes(v.descriptor_index);
        lemma_u16_bytes(v.index);
        assert(b[0] == u16_bytes(v.start_pc)[0] && b[1] == u16_bytes(v.start_pc)[1]);
        assert(b[2] == u16_bytes(v.length)[0] && b[3] == u16_bytes(v.length)[1]);
        assert(b[4] == u16_bytes(v.name_index)[0] && b[5] == u16_bytes(v.name_index)[1]);
        assert(b[6] == u16_bytes(v.descriptor_index)[0] && b[7] == u16_bytes(v.descriptor_index)[1]);
        assert(b[8] == u16_bytes(v.index)[0] && b[9] == u16_bytes(v.index)[1]);
    }
}

impl DeepView for LocalVariableTypeTableInfo {
    type V = LocalVariableTypeTableInfo;

    open spec fn deep_view(&self) -> LocalVariableTypeTableInfo {
        *self
    }
}

impl FromReadContext for LocalVariableTypeTableInfo {
    open spec fn spec_read(s: Seq<u8>) -> Parsed<LocalVariableTypeTableInfo> {
        if s.len() < 10 {
            Parsed::Fail(AsmErr::OutOfRange)
        } else {
            Parsed::Done(LocalVariableTypeTableInfo { start_pc: be_u16(s[0], s[1]), length: be_u16(s[2], s[3]), name_index: be_u16(s[4], s[5]), signature_index: be_u16(s[6], s[7]), index: be_u16(s[8], s[9]) }, 10)
        }
    }

    proof fn lemma_read_len(s: Seq<u8>) {
    }

    fn from_context(context: &mut ReadContext) -> (r: AsmResult<LocalVariableTypeTableInfo>) {
        let ghost s = context.rest();
        let start_pc: u16 = context.read()?;
        proof {
            assert(context.rest() =~= s.skip(2));
        }
        let length: u16 = context.read()?;
        proof {
            assert(context.rest() =~= s.skip(4));
        }
        let name_index: u16 = context.read()?;
        proof {
            assert(context.rest() =~= s.skip(6));
        }
        let signature_index: u16 = context.read()?;
        proof {
            assert(context.rest() =~= s.skip(8));
        }
        let index: u16 = context.read()?;
        Ok(LocalVariableTypeTableInfo { start_pc, length, name_index, signature_index, index })
    }
}

impl FromWriteContext for LocalVariableTypeTableInfo {
    open spec fn spec_write(v: LocalVariableTypeTableInfo) -> Seq<u8> {
        u16_bytes(v.start_pc) + u16_bytes(v.length) + u16_bytes(v.name_index) + u16_bytes(v.signature_index) + u16_bytes(v.index)
    }

    fn into_context(context: &mut WriteContext, from: &LocalVariableTypeTableInfo) {
        context.push(&from.start_pc);
        context.push(&from.length);
        context.push(&from.name_index);
        context.push(&from.signature_index);
        context.push(&from.index);
    }
}

impl Codec for LocalVariableTypeTableInfo {
    open spec fn spec_wf(v: LocalVariableTypeTableInfo) -> bool {
        true
    }

    proof fn lemma_roundtrip(v: LocalVariableTypeTableInfo, rest: Seq<u8>) {
        let b = Self::spec_write(v) + rest;
        lemma_u16_bytes(v.start_pc);
        lemma_u16_bytes(v.length);
        lemma_u16_bytes(v.name_index);
        lemma_u16_bytes(v.signature_index);
        lemma_u16_bytes(v.index);
        assert(b[0] == u16_bytes(v.start_pc)[0] && b[1] == u16_bytes(v.start_pc)[1]);
        assert(b[2] == u16_bytes(v.length)[0] && b[3] == u16_bytes(v.length)[1]);
        assert(b[4] == u16_bytes(v.name_index)[0] && b[5] == u16_bytes(v.name_index)[1]);
        assert(b[6] == u16_bytes(v.signature_index)[0] && b[7] == u16_bytes(v.signature_index)[1]);
        assert(b[8] == u16_bytes(v.index)[0] && b[9] == u16_bytes(v.index)[1]);
    }
}

impl DeepView for MethodParameter {
    type V = MethodParameter;

    open spec fn deep_view(&self) -> MethodParameter {
        *self
    }
}

impl FromReadContext for MethodParameter {
    open spec fn spec_read(s: Seq<u8>) -> Parsed<MethodParameter> {
        if s.len() < 4 {
            Parsed::Fail(AsmErr::OutOfRange)
        } else {
            Parsed::Done(MethodParameter { name_index: be_u16(s[0], s[1]), access_flags: be_u16(s[2], s[3]) }, 4)
        }
    }

    proof fn lemma_read_len(s: Seq<u8>) {
    }

    fn from_context(context: &mut ReadContext) -> (r: AsmResult<MethodParameter>) {
        let ghost s = context.rest();
        let name_index: u16 = context.read()?;
        proof {
            assert(context.rest() =~= s.skip(2));
        }
        let access_flags: u16 = context.read()?;
        Ok(MethodParameter { name_index, access_flags })
    }
}

impl FromWriteContext for MethodParameter {
    open spec fn spec_write(v: MethodParameter) -> Seq<u8> {
        u16_bytes(v.name_index) + u16_bytes(v.access_flags)
    }

    fn into_context(context: &mut WriteContext, from: &MethodParameter) {
        context.push(&from.name_index);
        context.push(&from.access_flags);
    }
}

impl Codec for MethodParameter {
    open spec fn spec_wf(v: MethodParameter) -> bool {
        true
    }

    proof fn lemma_roundtrip(v: MethodParameter, rest: Seq<u8>) {
        let b = Self::spec_write(v) + rest;
        lemma_u16_bytes(v.name_index);
        lemma_u16_bytes(v.access_flags);
        assert(b[0] == u16_bytes(v.name_index)[0] && b[1] == u16_bytes(v.name_index)[1]);
        assert(b[2] == u16_bytes(v.access_flags)[0] && b[3] == u16_bytes(v.access_flags)[1]);
    }
}

impl DeepView for ModuleRequires {
    type V = ModuleRequires;

    open spec fn deep_view(&self) -> ModuleRequires {
        *self
    }
}

impl FromReadContext for ModuleRequires {
    open spec fn spec_read(s: Seq<u8>) -> Parsed<ModuleRequires> {
        if s.len() < 6 {
            Parsed::Fail(AsmErr::OutOfRange)
        } else {
            Parsed::Done(ModuleRequires { requires_index: be_u16(s[0], s[1]), requires_flags: be_u16(s[2], s[3]), requires_version_index: be_u16(s[4], s[5]) }, 6)
        }
    }

    proof fn lemma_read_len(s: Seq<u8>) {
    }

    fn from_context(context: &mut ReadContext) -> (r: AsmResult<ModuleRequires>) {
        let ghost s = context.rest();
        let requires_index: u16 = context.read()?;
        proof {
            assert(context.rest() =~= s.skip(2));
        }
        let requires_flags: u16 = context.read()?;
        proof {
            assert(context.rest() =~= s.skip(4));
        }
        let requires_version_index: u16 = context.read()?;
        Ok(ModuleRequires { requires_index, requires_flags, requires_version_index })
    }
}

impl FromWriteContext for ModuleRequires {
    open spec fn spec_write(v: ModuleRequires) -> Seq<u8> {
        u16_bytes(v.requires_index) + u16_bytes(v.requires_flags) + u16_bytes(v.requires_version_index)
    }

    fn into_context(context: &mut WriteContext, from: &ModuleRequires) {
        context.push(&from.requires_index);
        context.push(&from.requires_flags);
        context.push(&from.requires_version_index);
    }
}

impl Codec for ModuleRequires {
    open spec fn spec_wf(v: ModuleRequires) -> bool {
        true
    }

    proof fn lemma_roundtrip(v: ModuleRequires, rest: Seq<u8>) {
        let b = Self::spec_write(v) + rest;
        lemma_u16_bytes(v.requires_index);
        lemma_u16_bytes(v.requires_flags);
        lemma_u16_bytes(v.requires_version_index);
        assert(b[0] == u16_bytes(v.requires_index)[0] && b[1] == u16_bytes(v.requires_index)[1]);
        assert(b[2] == u16_bytes(v.requires_flags)[0] && b[3] == u16_bytes(v.requires_flags)[1]);
        assert(b[4] == u16_bytes(v.requires_version_index)[0] && b[5] == u16_bytes(v.requires_version_index)[1]);
    }
}

impl DeepView for VerificationTypeInfo {
    type V = VerificationTypeInfo;

    open spec fn deep_view(&self) -> VerificationTypeInfo {
        *self
    }
}

impl FromReadContext for VerificationTypeInfo {
    open spec fn spec_read(s: Seq<u8>) -> Parsed<VerificationTypeInfo> {
        if s.len() < 1 {
            Parsed::Fail(AsmErr::OutOfRange)
        } else {
            let tag = s[0];
            if tag == 0 {
                Parsed::Done(VerificationTypeInfo::Top { tag }, 1)
            } else if tag == 1 {
                Parsed::Done(VerificationTypeInfo::Integer { tag }, 1)
            } else if tag == 2 {
                Parsed::Done(VerificationTypeInfo::Float { tag }, 1)
            } else if tag == 3 {
                Parsed::Done(VerificationTypeInfo::Double { tag }, 1)
            } else if tag == 4 {
                Parsed::Done(VerificationTypeInfo::Long { tag }, 1)
            } else if tag == 5 {
                Parsed::Done(VerificationTypeInfo::Null { tag }, 1)
            } else if tag == 6 {
                Parsed::Done(VerificationTypeInfo::UninitializedThis { tag }, 1)
            } else if tag == 7 || tag == 8 {
                if s.len() < 3 {
                    Parsed::Fail(AsmErr::OutOfRange)
                } else if tag == 7 {
                    Parsed::Done(VerificationTypeInfo::Object { tag, cpool_index: be_u16(s[1], s[2]) }, 3)
                } else {
                    Parsed::Done(VerificationTypeInfo::Uninitialized { tag, offset: be_u16(s[1], s[2]) }, 3)
                }
            } else {
                Parsed::Fail(AsmErr::UnknownFrameTag(tag))
            }
        }
    }

    proof fn lemma_read_len(s: Seq<u8>) {
    }

    fn from_context(context: &mut ReadContext) -> (r: AsmResult<VerificationTypeInfo>) {
        let ghost s = context.rest();
        let tag: u8 = context.read()?;
        proof {
            assert(context.rest() =~= s.skip(1));
        }
        let type_info = match tag {
            0 => VerificationTypeInfo::Top { tag },
            1 => VerificationTypeInfo::Integer { tag },
            2 => VerificationTypeInfo::Float { tag },
            3 => VerificationTypeInfo::Double { tag },
            4 => VerificationTypeInfo::Long { tag },
            5 => VerificationTypeInfo::Null { tag },
            6 => VerificationTypeInfo::UninitializedThis { tag },
            7 => VerificationTypeInfo::Object { tag, cpool_index: context.read()? },
            8 => VerificationTypeInfo::Uninitialized { tag, offset: context.read()? },
            _ => return Err(AsmErr::UnknownFrameTag(tag)),
        };
        Ok(type_info)
    }
}

impl FromWriteContext for VerificationTypeInfo {
    open spec fn spec_write(v: VerificationTypeInfo) -> Seq<u8> {
        match v {
            VerificationTypeInfo::Object { tag, cpool_index } => seq![tag] + u16_bytes(cpool_index),
            VerificationTypeInfo::Uninitialized { tag, offset } => seq![tag] + u16_bytes(offset),
            VerificationTypeInfo::Top { tag } => seq![tag],
            VerificationTypeInfo::Integer { tag } => seq![tag],
            VerificationTypeInfo::Float { tag } => seq![tag],
            VerificationTypeInfo::Null { tag } => seq![tag],
            VerificationTypeInfo::UninitializedThis { tag } => seq![tag],
            VerificationTypeInfo::Long { tag } => seq![tag],
            VerificationTypeInfo::Double { tag } => seq![tag],
        }
    }

    fn into_context(context: &mut WriteContext, from: &VerificationTypeInfo) {
        match from {
            VerificationTypeInfo::Object { tag, cpool_index } => {
                context.push(tag);
                context.push(cpool_index);
            },
            VerificationTypeInfo::Uninitialized { tag, offset } => {
                context.push(tag);
                context.push(offset);
            },
            VerificationTypeInfo::Top { tag }
            | VerificationTypeInfo::Integer { tag }
            | VerificationTypeInfo::Float { tag }
            | VerificationTypeInfo::Null { tag }
            | VerificationTypeInfo::UninitializedThis { tag }
            | VerificationTypeInfo::Long { tag }
            | VerificationTypeInfo::Double { tag } => context.push(tag),
        }
    }
}

impl Codec for VerificationTypeInfo {
    /// Each variant carries its own item tag (see [crate::jvms::frame::Frame]).
    open spec fn spec_wf(v: VerificationTypeInfo) -> bool {
        match v {
            VerificationTypeInfo::Top { tag } => tag == 0,
            VerificationTypeInfo::Integer { tag } => tag == 1,
            VerificationTypeInfo::Float { tag } => tag == 2,
            VerificationTypeInfo::Double { tag } => tag == 3,
            VerificationTypeInfo::Long { tag } => tag == 4,
            VerificationTypeInfo::Null { tag } => tag == 5,
            VerificationTypeInfo::UninitializedThis { tag } => tag == 6,
            VerificationTypeInfo::Object { tag, .. } => tag == 7,
            VerificationTypeInfo::Uninitialized { tag, .. } => tag == 8,
        }
    }

    proof fn lemma_roundtrip(v: VerificationTypeInfo, rest: Seq<u8>) {
        let b = Self::spec_write(v) + rest;
        match v {
            VerificationTypeInfo::Object { tag, cpool_index } => {
                lemma_u16_bytes(cpool_index);
                assert(b[1] == u16_bytes(cpool_index)[0] && b[2] == u16_bytes(cpool_index)[1]);
            },
            VerificationTypeInfo::Uninitialized { tag, offset } => {
                lemma_u16_bytes(offset);
                assert(b[1] == u16_bytes(offset)[0] && b[2] == u16_bytes(offset)[1]);
            },
            _ => {},
        }
        assert(b[0] == Self::spec_write(v)[0]);
    }
}

/// Reading verification types never aborts.
pub proof fn lemma_types_never_abort(s: Seq<u8>, n: nat)
    ensures
        !(spec_read_vec::<VerificationTypeInfo>(s, n) is Abort),
    decreases n,
{
    if n > 0 {
        lemma_types_never_abort(s, (n - 1) as nat);
    }
}

impl FromReadContext for StackMapFrame {
    open spec fn spec_read(s: Seq<u8>) -> Parsed<SpecStackMapFrame> {
        if s.len() < 1 {
            Parsed::Fail(AsmErr::OutOfRange)
        } else {
            let frame_type = s[0];
            if frame_type <= 63 {
                Parsed::Done(SpecStackMapFrame::SameFrame { frame_type }, 1)
            } else if frame_type <= 127 {
                match VerificationTypeInfo::spec_read(s.skip(1)) {
                    Parsed::Done(verification_type_info, k) => Parsed::Done(
                        SpecStackMapFrame::SameLocals1StackItemFrame { frame_type, verification_type_info },
                        1 + k,
                    ),
                    Parsed::Fail(e) => Parsed::Fail(e),
                    Parsed::Abort => Parsed::Abort,
                }
            } else if frame_type < 247 {
                Parsed::Fail(AsmErr::UnknownFrameType(frame_type))
            } else if s.len() < 3 {
                Parsed::Fail(AsmErr::OutOfRange)
            } else {
                let offset_delta = be_u16(s[1], s[2]);
                if frame_type == 247 {
                    match VerificationTypeInfo::spec_read(s.skip(3)) {
                        Parsed::Done(verification_type_info, k) => Parsed::Done(
                            SpecStackMapFrame::SameLocals1StackItemFrameExtended {
                                frame_type,
                                offset_delta,
                                verification_type_info,
                            },
                            3 + k,
                        ),
                        Parsed::Fail(e) => Parsed::Fail(e),
                        Parsed::Abort => Parsed::Abort,
                    }
                } else if frame_type <= 250 {
                    Parsed::Done(SpecStackMapFrame::ChopFrame { frame_type, offset_delta }, 3)
                } else if frame_type == 251 {
                    Parsed::Done(SpecStackMapFrame::SameFrameExtended { frame_type, offset_delta }, 3)
                } else if frame_type <= 254 {
                    match spec_read_vec::<VerificationTypeInfo>(s.skip(3), (frame_type - 251) as nat) {
                        Parsed::Done(locals, k) => Parsed::Done(
                            SpecStackMapFrame::AppendFrame { frame_type, offset_delta, locals },
                            3 + k,
                        ),
                        Parsed::Fail(e) => Parsed::Fail(e),
                        Parsed::Abort => Parsed::Abort,
                    }
                } else if s.len() < 5 {
                    Parsed::Fail(AsmErr::OutOfRange)
                } else {
                    let number_of_locals = be_u16(s[3], s[4]);
                    match spec_read_vec::<VerificationTypeInfo>(s.skip(5), number_of_locals as nat) {
                        Parsed::Done(locals, k1) => {
                            let p: int = 5 + k1 as int;
                            if s.len() < p + 2 {
                                Parsed::Fail(AsmErr::OutOfRange)
                            } else {
                                let number_of_stack_items = be_u16(s[p], s[p + 1]);
                                match spec_read_vec::<VerificationTypeInfo>(
                                    s.skip(p + 2),
                                    number_of_stack_items as nat,
                                ) {
                                    Parsed::Done(stack, k2) => Parsed::Done(
                                        SpecStackMapFrame::FullFrame {
                                            frame_type,
                                            offset_delta,
                                            number_of_locals,
                                            locals,
                                            number_of_stack_items,
                                            stack,
                                        },
                                        (p + 2 + k2) as nat,
                                    ),
                                    Parsed::Fail(e) => Parsed::Fail(e),
                                    Parsed::Abort => Parsed::Abort,
                                }
                            }
                        },
                        Parsed::Fail(e) => Parsed::Fail(e),
                        Parsed::Abort => Parsed::Abort,
                    }
                }
            }
        }
    }

    proof fn lemma_read_len(s: Seq<u8>) {
        if s.len() >= 5 {
            lemma_read_vec_len::<VerificationTypeInfo>(s.skip(3), (s[0] - 251) as nat);
            let nl = be_u16(s[3], s[4]);
            lemma_read_vec_len::<VerificationTypeInfo>(s.skip(5), nl as nat);
            if let Parsed::Done(_, k1) = spec_read_vec::<VerificationTypeInfo>(s.skip(5), nl as nat) {
                let p: int = 5 + k1 as int;
                if s.len() >= p + 2 {
                    lemma_read_vec_len::<VerificationTypeInfo>(s.skip(p + 2), be_u16(s[p], s[p + 1]) as nat);
                }
            }
        } else if s.len() >= 3 {
            lemma_read_vec_len::<VerificationTypeInfo>(s.skip(3), (s[0] - 251) as nat);
        }
    }

    fn from_context(context: &mut ReadContext) -> (r: AsmResult<StackMapFrame>) {
        let ghost s = context.rest();
        let ghost start = context.index;
        let frame_type: u8 = context.read()?;
        proof {
            assert(context.rest() =~= s.skip(1));
        }
        if frame_type <= 63 {
            return Ok(StackMapFrame::SameFrame { frame_type });
        }
        if frame_type <= 127 {
            let verification_type_info: VerificationTypeInfo = context.read()?;
            return Ok(StackMapFrame::SameLocals1StackItemFrame { frame_type, verification_type_info });
        }
        if frame_type < 247 {
            return Err(AsmErr::UnknownFrameType(frame_type));
        }
        let offset_delta: u16 = context.read()?;
        proof {
            assert(context.rest() =~= s.skip(3));
            lemma_types_never_abort(context.rest(), (frame_type - 251) as nat);
        }
        if frame_type == 247 {
            let verification_type_info: VerificationTypeInfo = context.read()?;
            return Ok(
                StackMapFrame::SameLocals1StackItemFrameExtended { frame_type, offset_delta, verification_type_info },
            );
        }
        if frame_type <= 250 {
            return Ok(StackMapFrame::ChopFrame { frame_type, offset_delta });
        }
        if frame_type == 251 {
            return Ok(StackMapFrame::SameFrameExtended { frame_type, offset_delta });
        }
        if frame_type <= 254 {
            let locals: Vec<VerificationTypeInfo> = context.read_vec((frame_type - 251) as usize)?;
            return Ok(StackMapFrame::AppendFrame { frame_type, offset_delta, locals });
        }
        let number_of_locals: u16 = context.read()?;
        proof {
            assert(context.rest() =~= s.skip(5));
            lemma_types_never_abort(context.rest(), number_of_locals as nat);
        }
        let locals: Vec<VerificationTypeInfo> = context.read_vec(number_of_locals as usize)?;
        proof {
            assert(context.rest() =~= s.skip(context.index - start));
        }
        let number_of_stack_items: u16 = context.read()?;
        proof {
            assert(context.rest() =~= s.skip(context.index - start));
            lemma_types_never_abort(context.rest(), number_of_stack_items as nat);
        }
        let stack: Vec<VerificationTypeInfo> = context.read_vec(number_of_stack_items as usize)?;
        Ok(StackMapFrame::FullFrame {
            frame_type,
            offset_delta,
            number_of_locals,
            locals,
            number_of_stack_items,
            stack,
        })
    }
}

impl FromWriteContext for StackMapFrame {
    open spec fn spec_write(v: SpecStackMapFrame) -> Seq<u8> {
        match v {
            SpecStackMapFrame::SameFrame { frame_type } => seq![frame_type],
            SpecStackMapFrame::SameFrameExtended { frame_type, offset_delta } => seq![frame_type] + u16_bytes(
                offset_delta,
            ),
            SpecStackMapFrame::SameLocals1StackItemFrame { frame_type, verification_type_info } => seq![frame_type]
                + VerificationTypeInfo::spec_write(verification_type_info),
            SpecStackMapFrame::SameLocals1StackItemFrameExtended {
                frame_type,
                offset_delta,
                verification_type_info,
            } => seq![frame_type] + u16_bytes(offset_delta) + VerificationTypeInfo::spec_write(
                verification_type_info,
            ),
            SpecStackMapFrame::ChopFrame { frame_type, offset_delta } => seq![frame_type] + u16_bytes(offset_delta),
            SpecStackMapFrame::AppendFrame { frame_type, offset_delta, locals } => seq![frame_type] + u16_bytes(
                offset_delta,
            ) + spec_write_vec::<VerificationTypeInfo>(locals),
            SpecStackMapFrame::FullFrame {
                frame_type,
                offset_delta,
                number_of_locals,
                locals,
                number_of_stack_items,
                stack,
            } => seq![frame_type] + u16_bytes(offset_delta) + u16_bytes(number_of_locals) + spec_write_vec::<
                VerificationTypeInfo,
            >(locals) + u16_bytes(number_of_stack_items) + spec_write_vec::<VerificationTypeInfo>(stack),
        }
    }

    fn into_context(context: &mut WriteContext, from: &StackMapFrame) {
        match from {
            StackMapFrame::SameFrame { frame_type } => context.push(frame_type),
            StackMapFrame::SameFrameExtended { frame_type, offset_delta }
            | StackMapFrame::ChopFrame { frame_type, offset_delta } => {
                context.push(frame_type);
                context.push(offset_delta);
            },
            StackMapFrame::SameLocals1StackItemFrame { frame_type, verification_type_info } => {
                context.push(frame_type);
                context.push(verification_type_info);
            },
            StackMapFrame::SameLocals1StackItemFrameExtended { frame_type, offset_delta, verification_type_info } => {
                context.push(frame_type);
                context.push(offset_delta);
                context.push(verification_type_info);
            },
            StackMapFrame::AppendFrame { frame_type, offset_delta, locals } => {
                context.push(frame_type);
                context.push(offset_delta);
                context.push(locals);
            },
            StackMapFrame::FullFrame {
                frame_type,
                offset_delta,
                number_of_locals,
                locals,
                number_of_stack_items,
                stack,
            } => {
                context.push(frame_type);
                context.push(offset_delta);
                context.push(number_of_locals);
                context.push(locals);
                context.push(number_of_stack_items);
                context.push(stack);
            },
        }
    }
}

impl Codec for StackMapFrame {
    /// The frame type lies in the range of the variant, and the counts match the lists.
    open spec fn spec_wf(v: SpecStackMapFrame) -> bool {
        match v {
            SpecStackMapFrame::SameFrame { frame_type } => frame_type <= 63,
            SpecStackMapFrame::SameLocals1StackItemFrame { frame_type, verification_type_info } => 64
                <= frame_type <= 127 && VerificationTypeInfo::spec_wf(verification_type_info),
            SpecStackMapFrame::SameLocals1StackItemFrameExtended { frame_type, verification_type_info, .. } =>
                frame_type == 247 && VerificationTypeInfo::spec_wf(verification_type_info),
            SpecStackMapFrame::ChopFrame { frame_type, .. } => 248 <= frame_type <= 250,
            SpecStackMapFrame::SameFrameExtended { frame_type, .. } => frame_type == 251,
            SpecStackMapFrame::AppendFrame { frame_type, locals, .. } => 252 <= frame_type <= 254
                && locals.len() == frame_type - 251 && all_wf::<VerificationTypeInfo>(locals),
            SpecStackMapFrame::FullFrame {
                frame_type,
                number_of_locals,
                locals,
                number_of_stack_items,
                stack,
                ..
            } => frame_type == 255 && locals.len() == number_of_locals && all_wf::<VerificationTypeInfo>(locals)
                && stack.len() == number_of_stack_items && all_wf::<VerificationTypeInfo>(stack),
        }
    }

    #[verifier::spinoff_prover]
    proof fn lemma_roundtrip(v: SpecStackMapFrame, rest: Seq<u8>) {
        let w = Self::spec_write(v);
        let b = w + rest;
        assert(b[0] == w[0]);
        match v {
            SpecStackMapFrame::SameFrame { frame_type } => {},
            SpecStackMapFrame::SameLocals1StackItemFrame { frame_type, verification_type_info } => {
                let t = VerificationTypeInfo::spec_write(verification_type_info);
                VerificationTypeInfo::lemma_roundtrip(verification_type_info, rest);
                assert(b.skip(1) =~= t + rest);
            },
            SpecStackMapFrame::SameLocals1StackItemFrameExtended { frame_type, offset_delta, verification_type_info } => {
                let t = VerificationTypeInfo::spec_write(verification_type_info);
                VerificationTypeInfo::lemma_roundtrip(verification_type_info, rest);
                lemma_u16_bytes(offset_delta);
                assert(b[1] == u16_bytes(offset_delta)[0] && b[2] == u16_bytes(offset_delta)[1]);
                assert(b.skip(3) =~= t + rest);
            },
            SpecStackMapFrame::ChopFrame { frame_type, offset_delta } => {
                lemma_u16_bytes(offset_delta);
                assert(b[1] == u16_bytes(offset_delta)[0] && b[2] == u16_bytes(offset_delta)[1]);
            },
            SpecStackMapFrame::SameFrameExtended { frame_type, offset_delta } => {
                lemma_u16_bytes(offset_delta);
                assert(b[1] == u16_bytes(offset_delta)[0] && b[2] == u16_bytes(offset_delta)[1]);
            },
            SpecStackMapFrame::AppendFrame { frame_type, offset_delta, locals } => {
                lemma_u16_bytes(offset_delta);
                assert(b[1] == u16_bytes(offset_delta)[0] && b[2] == u16_bytes(offset_delta)[1]);
                lemma_vec_roundtrip::<VerificationTypeInfo>(locals, rest);
                assert(b.skip(3) =~= spec_write_vec::<VerificationTypeInfo>(locals) + rest);
            },
            SpecStackMapFrame::FullFrame { .. } => {
                lemma_full_frame_roundtrip(v, rest);
            },
        }
    }
}

impl FromReadContext for BootstrapMethod {
    open spec fn spec_read(s: Seq<u8>) -> Parsed<SpecBootstrapMethod> {
        if s.len() < 4 {
            Parsed::Fail(AsmErr::OutOfRange)
        } else {
            let num_bootstrap_arguments = be_u16(s[2], s[3]);
            match spec_read_vec::<u16>(s.skip(4), num_bootstrap_arguments as nat) {
                Parsed::Done(bootstrap_arguments, m) => Parsed::Done(SpecBootstrapMethod { bootstrap_method_ref: be_u16(s[0], s[1]), num_bootstrap_arguments, bootstrap_arguments }, 4 + m),
                Parsed::Fail(e) => Parsed::Fail(e),
                Parsed::Abort => Parsed::Abort,
            }
        }
    }

    proof fn lemma_read_len(s: Seq<u8>) {
        if s.len() >= 4 {
            lemma_read_vec_len::<u16>(s.skip(4), be_u16(s[2], s[3]) as nat);
        }
    }

    fn from_context(context: &mut ReadContext) -> (r: AsmResult<BootstrapMethod>) {
        let ghost s = context.rest();
        let bootstrap_method_ref: u16 = context.read()?;
        let num_bootstrap_arguments: u16 = context.read()?;
        proof {
            assert(context.rest() =~= s.skip(4));
            lemma_members_never_abort(context.rest(), num_bootstrap_arguments as nat);
        }
        let bootstrap_arguments: Vec<u16> = context.read_vec(num_bootstrap_arguments as usize)?;
        Ok(BootstrapMethod { bootstrap_method_ref, num_bootstrap_arguments, bootstrap_arguments })
    }
}

impl FromWriteContext for BootstrapMethod {
    open spec fn spec_write(v: SpecBootstrapMethod) -> Seq<u8> {
        u16_bytes(v.bootstrap_method_ref) + u16_bytes(v.num_bootstrap_arguments) + spec_write_vec::<u16>(v.bootstrap_arguments)
    }

    fn into_context(context: &mut WriteContext, from: &BootstrapMethod) {
        context.push(&from.bootstrap_method_ref);
        context.push(&from.num_bootstrap_arguments);
        context.push(&from.bootstrap_arguments);
    }
}

impl Codec for BootstrapMethod {
    /// The stored count is the length of the list.
    open spec fn spec_wf(v: SpecBootstrapMethod) -> bool {
        v.bootstrap_arguments.len() == v.num_bootstrap_arguments
    }

    proof fn lemma_roundtrip(v: SpecBootstrapMethod, rest: Seq<u8>) {
        let w = spec_write_vec::<u16>(v.bootstrap_arguments);
        let b = Self::spec_write(v) + rest;
        lemma_u16_bytes(v.bootstrap_method_ref);
        assert(b[0] == u16_bytes(v.bootstrap_method_ref)[0] && b[1] == u16_bytes(v.bootstrap_method_ref)[1]);
        lemma_u16_bytes(v.num_bootstrap_arguments);
        assert(b[2] == u16_bytes(v.num_bootstrap_arguments)[0] && b[3] == u16_bytes(v.num_bootstrap_arguments)[1]);
        assert(all_wf::<u16>(v.bootstrap_arguments));
        lemma_vec_roundtrip::<u16>(v.bootstrap_arguments, rest);
        assert(b.skip(4) =~= w + rest);
    }
}

impl FromReadContext for ModuleExports {
    open spec fn spec_read(s: Seq<u8>) -> Parsed<SpecModuleExports> {
        if s.len() < 6 {
            Parsed::Fail(AsmErr::OutOfRange)
        } else {
            let exports_to_count = be_u16(s[4], s[5]);
            match spec_read_vec::<u16>(s.skip(6), exports_to_count as nat) {
                Parsed::Done(exports_to_index, m) => Parsed::Done(SpecModuleExports { exports_index: be_u16(s[0], s[1]), exports_flags: be_u16(s[2], s[3]), exports_to_count, exports_to_index }, 6 + m),
                Parsed::Fail(e) => Parsed::Fail(e),
                Parsed::Abort => Parsed::Abort,
            }
        }
    }

    proof fn lemma_read_len(s: Seq<u8>) {
        if s.len() >= 6 {
            lemma_read_vec_len::<u16>(s.skip(6), be_u16(s[4], s[5]) as nat);
        }
    }

    fn from_context(context: &mut ReadContext) -> (r: AsmResult<ModuleExports>) {
        let ghost s = context.rest();
        let exports_index: u16 = context.read()?;
        let exports_flags: u16 = context.read()?;
        let exports_to_count: u16 = context.read()?;
        proof {
            assert(context.rest() =~= s.skip(6));
            lemma_members_never_abort(context.rest(), exports_to_count as nat);
        }
        let exports_to_index: Vec<u16> = context.read_vec(exports_to_count as usize)?;
        Ok(ModuleExports { exports_index, exports_flags, exports_to_count, exports_to_index })
    }
}

impl FromWriteContext for ModuleExports {
    open spec fn spec_write(v: SpecModuleExports) -> Seq<u8> {
        u16_bytes(v.exports_index) + u16_bytes(v.exports_flags) + u16_bytes(v.exports_to_count) + spec_write_vec::<u16>(v.exports_to_index)
    }

    fn into_context(context: &mut WriteContext, from: &ModuleExports) {
        context.push(&from.exports_index);
        context.push(&from.exports_flags);
        context.push(&from.exports_to_count);
        context.push(&from.exports_to_index);
    }
}

impl Codec for ModuleExports {
    /// The stored count is the length of the list.
    open spec fn spec_wf(v: SpecModuleExports) -> bool {
        v.exports_to_index.len() == v.exports_to_count
    }

    proof fn lemma_roundtrip(v: SpecModuleExports, rest: Seq<u8>) {
        let w = spec_write_vec::<u16>(v.exports_to_index);
        let b = Self::spec_write(v) + rest;
        lemma_u16_bytes(v.exports_index);
        assert(b[0] == u16_bytes(v.exports_index)[0] && b[1] == u16_bytes(v.exports_index)[1]);
        lemma_u16_bytes(v.exports_flags);
        assert(b[2] == u16_bytes(v.exports_flags)[0] && b[3] == u16_bytes(v.exports_flags)[1]);
        lemma_u16_bytes(v.exports_to_count);
        assert(b[4] == u16_bytes(v.exports_to_count)[0] && b[5] == u16_bytes(v.exports_to_count)[1]);
        assert(all_wf::<u16>(v.exports_to_index));
        lemma_vec_roundtrip::<u16>(v.exports_to_index, rest);
        assert(b.skip(6) =~= w + rest);
    }
}

impl FromReadContext for ModuleOpens {
    open spec fn spec_read(s: Seq<u8>) -> Parsed<SpecModuleOpens> {
        if s.len() < 6 {
            Parsed::Fail(AsmErr::OutOfRange)
        } else {
            let opens_to_count = be_u16(s[4], s[5]);
            match spec_read_vec::<u16>(s.skip(6), opens_to_count as nat) {
                Parsed::Done(opens_to_index, m) => Parsed::Done(SpecModuleOpens { opens_index: be_u16(s[0], s[1]), opens_flags: be_u16(s[2], s[3]), opens_to_count, opens_to_index }, 6 + m),
                Parsed::Fail(e) => Parsed::Fail(e),
                Parsed::Abort => Parsed::Abort,
            }
        }
    }

    proof fn lemma_read_len(s: Seq<u8>) {
        if s.len() >= 6 {
            lemma_read_vec_len::<u16>(s.skip(6), be_u16(s[4], s[5]) as nat);
        }
    }

    fn from_context(context: &mut ReadContext) -> (r: AsmResult<ModuleOpens>) {
        let ghost s = context.rest();
        let opens_index: u16 = context.read()?;
        let opens_flags: u16 = context.read()?;
        let opens_to_count: u16 = context.read()?;
        proof {
            assert(context.rest() =~= s.skip(6));
            lemma_members_never_abort(context.rest(), opens_to_count as nat);
        }
        let opens_to_index: Vec<u16> = context.read_vec(opens_to_count as usize)?;
        Ok(ModuleOpens { opens_index, opens_flags, opens_to_count, opens_to_index })
    }
}

impl FromWriteContext for ModuleOpens {
    open spec fn spec_write(v: SpecModuleOpens) -> Seq<u8> {
        u16_bytes(v.opens_index) + u16_bytes(v.opens_flags) + u16_bytes(v.opens_to_count) + spec_write_vec::<u16>(v.opens_to_index)
    }

    fn into_context(context: &mut WriteContext, from: &ModuleOpens) {
        context.push(&from.opens_index);
        context.push(&from.opens_flags);
        context.push(&from.opens_to_count);
        context.push(&from.opens_to_index);
    }
}

impl Codec for ModuleOpens {
    /// The stored count is the length of the list.
    open spec fn spec_wf(v: SpecModuleOpens) -> bool {
        v.opens_to_index.len() == v.opens_to_count
    }

    proof fn lemma_roundtrip(v: SpecModuleOpens, rest: Seq<u8>) {
        let w = spec_write_vec::<u16>(v.opens_to_index);
        let b = Self::spec_write(v) + rest;
        lemma_u16_bytes(v.opens_index);
        assert(b[0] == u16_bytes(v.opens_index)[0] && b[1] == u16_bytes(v.opens_index)[1]);
        lemma_u16_bytes(v.opens_flags);
        assert(b[2] == u16_bytes(v.opens_flags)[0] && b[3] == u16_bytes(v.opens_flags)[1]);
        lemma_u16_bytes(v.opens_to_count);
        assert(b[4] == u16_bytes(v.opens_to_count)[0] && b[5] == u16_bytes(v.opens_to_count)[1]);
        assert(all_wf::<u16>(v.opens_to_index));
        lemma_vec_roundtrip::<u16>(v.opens_to_index, rest);
        assert(b.skip(6) =~= w + rest);
    }
}

impl FromReadContext for ModuleProvides {
    open spec fn spec_read(s: Seq<u8>) -> Parsed<SpecModuleProvides> {
        if s.len() < 4 {
            Parsed::Fail(AsmErr::OutOfRange)
        } else {
            let provides_with_count = be_u16(s[2], s[3]);
            match spec_read_vec::<u16>(s.skip(4), provides_with_count as nat) {
                Parsed::Done(provides_with_index, m) => Parsed::Done(SpecModuleProvides { provides_index: be_u16(s[0], s[1]), provides_with_count, provides_with_index }, 4 + m),
                Parsed::Fail(e) => Parsed::Fail(e),
                Parsed::Abort => Parsed::Abort,
            }
        }
    }

    proof fn lemma_read_len(s: Seq<u8>) {
        if s.len() >= 4 {
            lemma_read_vec_len::<u16>(s.skip(4), be_u16(s[2], s[3]) as nat);
        }
    }

    fn from_context(context: &mut ReadContext) -> (r: AsmResult<ModuleProvides>) {
        let ghost s = context.rest();
        let provides_index: u16 = context.read()?;
        let provides_with_count: u16 = context.read()?;
        proof {
            assert(context.rest() =~= s.skip(4));
            lemma_members_never_abort(context.rest(), provides_with_count as nat);
        }
        let provides_with_index: Vec<u16> = context.read_vec(provides_with_count as usize)?;
        Ok(ModuleProvides { provides_index, provides_with_count, provides_with_index })
    }
}

impl FromWriteContext for ModuleProvides {
    open spec fn spec_write(v: SpecModuleProvides) -> Seq<u8> {
        u16_bytes(v.provides_index) + u16_bytes(v.provides_with_count) + spec_write_vec::<u16>(v.provides_with_index)
    }

    fn into_context(context: &mut WriteContext, from: &ModuleProvides) {
        context.push(&from.provides_index);
        context.push(&from.provides_with_count);
        context.push(&from.provides_with_index);
    }
}

impl Codec for ModuleProvides {
    /// The stored count is the length of the list.
    open spec fn spec_wf(v: SpecModuleProvides) -> bool {
        v.provides_with_index.len() == v.provides_with_count
    }

    proof fn lemma_roundtrip(v: SpecModuleProvides, rest: Seq<u8>) {
        let w = spec_write_vec::<u16>(v.provides_with_index);
        let b = Self::spec_write(v) + rest;
        lemma_u16_bytes(v.provides_index);
        assert(b[0] == u16_bytes(v.provides_index)[0] && b[1] == u16_bytes(v.provides_index)[1]);
        lemma_u16_bytes(v.provides_with_count);
        assert(b[2] == u16_bytes(v.provides_with_count)[0] && b[3] == u16_bytes(v.provides_with_count)[1]);
        assert(all_wf::<u16>(v.provides_with_index));
        lemma_vec_roundtrip::<u16>(v.provides_with_index, rest);
        assert(b.skip(4) =~= w + rest);
    }
}

/// A full frame reads back whole.
#[verifier::spinoff_prover]
pub proof fn lemma_full_frame_roundtrip(v: SpecStackMapFrame, rest: Seq<u8>)
    requires
        v is FullFrame,
        StackMapFrame::spec_wf(v),
    ensures
        StackMapFrame::spec_read(StackMapFrame::spec_write(v) + rest) == Parsed::Done(
            v,
            StackMapFrame::spec_write(v).len(),
        ),
{
    let w = StackMapFrame::spec_write(v);
    let b = w + rest;
    assert(b[0] == w[0]);
    if let SpecStackMapFrame::FullFrame {
        frame_type,
        offset_delta,
        number_of_locals,
        locals,
        number_of_stack_items,
        stack,
    } = v {
        let wl = spec_write_vec::<VerificationTypeInfo>(locals);
        let ws = spec_write_vec::<VerificationTypeInfo>(stack);
        lemma_u16_bytes(offset_delta);
        lemma_u16_bytes(number_of_locals);
        lemma_u16_bytes(number_of_stack_items);
        assert(b[1] == u16_bytes(offset_delta)[0] && b[2] == u16_bytes(offset_delta)[1]);
        assert(b[3] == u16_bytes(number_of_locals)[0] && b[4] == u16_bytes(number_of_locals)[1]);
        let tail = u16_bytes(number_of_stack_items) + ws + rest;
        lemma_vec_roundtrip::<VerificationTypeInfo>(locals, tail);
        assert(b.skip(5) =~= wl + tail);
        let p: int = 5 + wl.len() as int;
        assert(b[p] == u16_bytes(number_of_stack_items)[0] && b[p + 1] == u16_bytes(number_of_stack_items)[1]);
        lemma_vec_roundtrip::<VerificationTypeInfo>(stack, rest);
        assert(b.skip(p + 2) =~= ws + rest);
    }
}

} // verus!
