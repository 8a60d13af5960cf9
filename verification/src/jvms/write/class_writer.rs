//! Writing a whole class file to bytes.

use crate::err::AsmResult;
use crate::jvms::element::ClassFile;
use crate::jvms::write::bytes::{FromWriteContext, WriteContext};
use crate::jvms::write::jvms_writer::class_file_bytes;
use vstd::prelude::*;

verus! {

/// Writes class files.
pub struct JvmsClassWriter;

impl JvmsClassWriter {
    /// Appends the bytes of `class_file` to `bytes`. Writing never fails.
    pub fn write_class_bytes(bytes: Vec<u8>, class_file: ClassFile) -> (r: AsmResult<Vec<u8>>)
        ensures
            r matches Ok(v) && v@ == bytes@ + class_file_bytes(class_file.deep_view()),
    {
        let mut write_context = WriteContext { bytes };
        write_context.push(&class_file);
        Ok(write_context.bytes)
    }
}

} // verus!
