//! Reading and writing of JVM class files (JVMS chapter 4), Java's modified UTF-8,
//! a constant pool builder, smali token trees and the helpers of the command-line front end.

pub mod class_index;
pub mod cli;
pub mod constants;
pub mod descriptor;
pub mod err;
pub mod jvms;
pub mod method;
pub mod mutf8;
pub mod node;
pub mod number_text;
pub mod opcodes;
pub mod pool;
pub mod render;
pub mod smali;
pub mod util;
