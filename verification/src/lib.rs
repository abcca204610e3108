//! A bytecode interpreter for class files of the Java SE 8 format.
//!
//! The library decodes class files, links classes, keeps a managed heap and
//! executes bytecode one instruction at a time. Reading class bytes from
//! disk, host floating point and host-side native methods are supplied by
//! the embedding program.

pub mod error;
pub mod flags;
pub mod text;
pub mod reader;
pub mod desc;
pub mod cp;
pub mod attr;
pub mod classfile;
pub mod class;
pub mod heap;
pub mod link;
pub mod layout;
pub mod loader;
pub mod load;
pub mod boot;
pub mod resolve;
pub mod arrays;
pub mod ins;
pub mod thread;
pub mod vm;
pub mod entry;
pub mod natives;
pub mod objects;
pub mod sound;
pub mod slots;
pub mod frame;
pub mod dup;
