pub mod bytes;
pub mod jvms_writer;
pub mod class_writer;
pub mod annotation_writer;
