//! Access flags of classes, fields and methods.

use vstd::prelude::*;

verus! {

/// The bit of the flag `public`.
pub const ACC_PUBLIC: u16 = 0x0001;
/// The bit of the flag `private`.
pub const ACC_PRIVATE: u16 = 0x0002;
/// The bit of the flag `protected`.
pub const ACC_PROTECTED: u16 = 0x0004;
/// The bit of the flag `static`.
pub const ACC_STATIC: u16 = 0x0008;
/// The bit of the flag `final`.
pub const ACC_FINAL: u16 = 0x0010;
/// The bit of the flag `super`.
pub const ACC_SUPER: u16 = 0x0020;
/// The bit of the flag `synchronized`.
pub const ACC_SYNCHRONIZED: u16 = 0x0020;
/// The bit of the flag `volatile`.
pub const ACC_VOLATILE: u16 = 0x0040;
/// The bit of the flag `bridge`.
pub const ACC_BRIDGE: u16 = 0x0040;
/// The bit of the flag `transient`.
pub const ACC_TRANSIENT: u16 = 0x0080;
/// The bit of the flag `varargs`.
pub const ACC_VARARGS: u16 = 0x0080;
/// The bit of the flag `native`.
pub const ACC_NATIVE: u16 = 0x0100;
/// The bit of the flag `interface`.
pub const ACC_INTERFACE: u16 = 0x0200;
/// The bit of the flag `abstract`.
pub const ACC_ABSTRACT: u16 = 0x0400;
/// The bit of the flag `strict`.
pub const ACC_STRICT: u16 = 0x0800;
/// The bit of the flag `synthetic`.
pub const ACC_SYNTHETIC: u16 = 0x1000;
/// The bit of the flag `annotation`.
pub const ACC_ANNOTATION: u16 = 0x2000;
/// The bit of the flag `enum`.
pub const ACC_ENUM: u16 = 0x4000;

/// A set of access flags, one bit each.
#[derive(Clone, Copy, PartialEq, Eq, Structural, Debug)]
pub struct AccessFlags(pub u16);

impl Default for AccessFlags {
    fn default() -> (r: AccessFlags)
        ensures
            r.0 == 0,
    {
        AccessFlags(0)
    }
}

impl AccessFlags {
    /// Whether any bit of `mask` is set.
    pub open spec fn has(&self, mask: u16) -> bool {
        self.0 & mask != 0
    }

    /// Whether the flag `public` is set.
    pub fn is_public(&self) -> (r: bool)
        ensures
            r == self.has(ACC_PUBLIC),
    {
        self.0 & ACC_PUBLIC != 0
    }

    /// Whether the flag `private` is set.
    pub fn is_private(&self) -> (r: bool)
        ensures
            r == self.has(ACC_PRIVATE),
    {
        self.0 & ACC_PRIVATE != 0
    }

    /// Whether the flag `protected` is set.
    pub fn is_protected(&self) -> (r: bool)
        ensures
            r == self.has(ACC_PROTECTED),
    {
        self.0 & ACC_PROTECTED != 0
    }

    /// Whether the flag `static` is set.
    pub fn is_static(&self) -> (r: bool)
        ensures
            r == self.has(ACC_STATIC),
    {
        self.0 & ACC_STATIC != 0
    }

    /// Whether the flag `final` is set.
    pub fn is_final(&self) -> (r: bool)
        ensures
            r == self.has(ACC_FINAL),
    {
        self.0 & ACC_FINAL != 0
    }

    /// Whether the flag `super` is set.
    pub fn is_super(&self) -> (r: bool)
        ensures
            r == self.has(ACC_SUPER),
    {
        self.0 & ACC_SUPER != 0
    }

    /// Whether the flag `synchronized` is set.
    pub fn is_sync(&self) -> (r: bool)
        ensures
            r == self.has(ACC_SYNCHRONIZED),
    {
        self.0 & ACC_SYNCHRONIZED != 0
    }

    /// Whether the flag `volatile` is set.
    pub fn is_volatile(&self) -> (r: bool)
        ensures
            r == self.has(ACC_VOLATILE),
    {
        self.0 & ACC_VOLATILE != 0
    }

    /// Whether the flag `bridge` is set.
    pub fn is_bridge(&self) -> (r: bool)
        ensures
            r == self.has(ACC_BRIDGE),
    {
        self.0 & ACC_BRIDGE != 0
    }

    /// Whether the flag `transient` is set.
    pub fn is_transient(&self) -> (r: bool)
        ensures
            r == self.has(ACC_TRANSIENT),
    {
        self.0 & ACC_TRANSIENT != 0
    }

    /// Whether the flag `varargs` is set.
    pub fn is_varargs(&self) -> (r: bool)
        ensures
            r == self.has(ACC_VARARGS),
    {
        self.0 & ACC_VARARGS != 0
    }

    /// Whether the flag `native` is set.
    pub fn is_native(&self) -> (r: bool)
        ensures
            r == self.has(ACC_NATIVE),
    {
        self.0 & ACC_NATIVE != 0
    }

    /// Whether the flag `interface` is set.
    pub fn is_iface(&self) -> (r: bool)
        ensures
            r == self.has(ACC_INTERFACE),
    {
        self.0 & ACC_INTERFACE != 0
    }

    /// Whether the flag `abstract` is set.
    pub fn is_abstract(&self) -> (r: bool)
        ensures
            r == self.has(ACC_ABSTRACT),
    {
        self.0 & ACC_ABSTRACT != 0
    }

    /// Whether the flag `strict` is set.
    pub fn is_strict(&self) -> (r: bool)
        ensures
            r == self.has(ACC_STRICT),
    {
        self.0 & ACC_STRICT != 0
    }

    /// Whether the flag `synthetic` is set.
    pub fn is_synthetic(&self) -> (r: bool)
        ensures
            r == self.has(ACC_SYNTHETIC),
    {
        self.0 & ACC_SYNTHETIC != 0
    }

    /// Whether the flag `annotation` is set.
    pub fn is_annotation(&self) -> (r: bool)
        ensures
            r == self.has(ACC_ANNOTATION),
    {
        self.0 & ACC_ANNOTATION != 0
    }

    /// Whether the flag `enum` is set.
    pub fn is_enum(&self) -> (r: bool)
        ensures
            r == self.has(ACC_ENUM),
    {
        self.0 & ACC_ENUM != 0
    }
}

} // verus!
