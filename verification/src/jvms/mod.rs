//! The JVMS view of a class file: its raw structures, and how they are read from and
//! written to bytes.

pub mod attr;
pub mod layout;
pub mod element;
pub mod frame;
pub mod read;
pub mod reread;
pub mod roundtrip;
pub mod wire;
pub mod write;
pub mod normal_form;
pub mod class_roundtrip;

pub use read::class_reader::JvmsClassReader;
pub use write::class_writer::JvmsClassWriter;
pub mod annotation_roundtrip;
