pub mod bytes;
pub mod jvms_reader;
pub mod attr_body;
pub mod transform;
pub mod class_reader;
pub mod annotation_reader;
