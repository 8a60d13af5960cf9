use vstd::prelude::*;

verus! {

/// The kind of constant a read of the constant pool required.
#[derive(Debug, Clone, Copy, PartialEq, Eq, Structural)]
pub enum ConstKind {
    Class,
    Utf8,
    Module,
    Package,
    NameAndType,
}

/// Errors reported by the class-file reader and the string converters.
#[derive(Debug, Clone, PartialEq, Eq, Structural)]
pub enum AsmErr {
    /// The input ended before a value could be read completely.
    OutOfRange,
    /// A constant-pool entry starts with a tag that the JVMS does not define.
    UnknownConstTag(u8),
    /// A `stack_map_frame` starts with a frame type that the JVMS does not define.
    UnknownFrameType(u8),
    /// A `verification_type_info` starts with a tag that the JVMS does not define.
    UnknownFrameTag(u8),
    /// The constant-pool entry at `index` was expected to be a `CONSTANT_Utf8` but has tag `tag`.
    NotUtf8Const { index: usize, tag: u8 },
    /// The constant-pool entry at `index` is tagged `CONSTANT_Utf8` but holds another constant.
    MismatchedUtf8Const { index: usize },
    /// A byte sequence expected to be UTF-8 is not.
    ReadUTF8,
    /// A modified UTF-8 sequence starts with this byte, which begins no known encoding.
    ReadMUTF8(u8),
    /// A UTF-8 sequence starts with this byte, which begins no known encoding.
    ReadUTF8Byte(u8),
    /// An annotation's `element_value` starts with a tag that the JVMS does not define.
    UnknownElementValueTag(u8),
    /// A type annotation has a `target_type` that the JVMS does not define.
    UnknownTargetType(u8),
    /// The constant-pool entry at `index` resolves to another kind of constant than `required`.
    IllegalConst { index: u16, required: ConstKind },
    /// The `ConstantValue` of a field names the entry at this index, which holds no value a
    /// field can start with.
    ResolveNode(u16),
}

pub type AsmResult<T> = Result<T, AsmErr>;

} // verus!
