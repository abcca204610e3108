//! The instructions: how they are decoded from a method's code and what
//! each family of them does.

pub mod decode;
pub mod alu;
pub mod stack;
pub mod value;
pub mod float;
pub mod math;
pub mod conv;
pub mod compare;
pub mod ctl;
pub mod load;
pub mod store;
pub mod cons;
pub mod world;
pub mod field;
pub mod invoke;
pub mod object;
pub mod refs;
pub mod other;
