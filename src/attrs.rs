//! Visibility and implementation flags of fields, methods and types.
use vstd::prelude::*;

verus! {

/// Implementation flags of a field; each is one bit of a flag set.
#[derive(Clone, Copy, PartialEq, Eq, Debug)]
pub enum FieldImplementationFlags {
    Static,
}

/// Implementation flags of a method; each is one bit of a flag set.
#[derive(Clone, Copy, PartialEq, Eq, Debug)]
pub enum MethodImplementationFlags {
    Static,
    ImplementedByRuntime,
}

/// Implementation flags of a struct type.
#[derive(Clone, Copy, PartialEq, Eq, Debug)]
pub enum StructImplementationFlags {
    Ref,
}

/// Implementation flags of a class type.
#[derive(Clone, Copy, PartialEq, Eq, Debug)]
pub enum ClassImplementationFlags {
    Static,
}

impl FieldImplementationFlags {
    /// The bit of the flag.
    pub fn bits(self) -> (r: u8)
        ensures
            r == 1u8,
    {
        match self {
            FieldImplementationFlags::Static => 1,
        }
    }
}

impl MethodImplementationFlags {
    /// The bit of the flag: one bit per flag, in declaration order.
    pub fn bits(self) -> (r: u8)
        ensures
            r == match self {
                MethodImplementationFlags::Static => 1u8,
                MethodImplementationFlags::ImplementedByRuntime => 2u8,
            },
    {
        match self {
            MethodImplementationFlags::Static => 1,
            MethodImplementationFlags::ImplementedByRuntime => 2,
        }
    }
}

impl StructImplementationFlags {
    /// The bit of the flag.
    pub fn bits(self) -> (r: u8)
        ensures
            r == 1u8,
    {
        match self {
            StructImplementationFlags::Ref => 1,
        }
    }
}

impl ClassImplementationFlags {
    /// The bit of the flag.
    pub fn bits(self) -> (r: u8)
        ensures
            r == 1u8,
    {
        match self {
            ClassImplementationFlags::Static => 1,
        }
    }
}

/// Who may see a member or a type; stored as one byte.
#[derive(Clone, Copy, PartialEq, Eq, Debug)]
pub enum Visibility {
    Public,
    Private,
    AssemblyOnly,
}

/// The byte that stores a visibility.
pub open spec fn visibility_code(v: Visibility) -> u8 {
    match v {
        Visibility::Public => 0,
        Visibility::Private => 1,
        Visibility::AssemblyOnly => 2,
    }
}

impl Visibility {
    /// The stored byte.
    pub fn to_u8(self) -> (r: u8)
        ensures
            r == visibility_code(self),
    {
        match self {
            Visibility::Public => 0,
            Visibility::Private => 1,
            Visibility::AssemblyOnly => 2,
        }
    }

    /// The visibility stored as `b`; `None` for a byte that stores none.
    pub fn from_u8(b: u8) -> (r: Option<Visibility>)
        ensures
            match r {
                Some(v) => visibility_code(v) == b,
                None => b > 2,
            },
    {
        match b {
            0 => Some(Visibility::Public),
            1 => Some(Visibility::Private),
            2 => Some(Visibility::AssemblyOnly),
            _ => None,
        }
    }
}

} // verus!
