use vstd::prelude::*;

verus! {

/// A raw graphics-device object name.  Zero is the reserved invalid name.
#[derive(Clone, Copy, Debug, PartialEq, Eq, Structural)]
pub struct GLHandle {
    handle: u32,
}

impl GLHandle {
    pub closed spec fn spec_get(self) -> u32 {
        self.handle
    }

    pub fn get(&self) -> (r: u32)
        ensures
            r == self.spec_get(),
    {
        self.handle
    }

    pub fn is_valid(&self) -> (r: bool)
        ensures
            r == (self.spec_get() > 0),
    {
        self.handle > 0
    }

    pub fn new(handle: u32) -> (r: GLHandle)
        ensures
            r.spec_get() == handle,
    {
        GLHandle { handle }
    }
}

/// What a device buffer is bound as.
#[derive(Clone, Copy, Debug, PartialEq, Eq, Structural)]
pub enum BufferUsage {
    Attribute,
    Index,
    Uniform,
    Storage,
}

impl BufferUsage {
    /// The device enumerant for this binding point, as the graphics API
    /// defines it (ARRAY_BUFFER, ELEMENT_ARRAY_BUFFER, UNIFORM_BUFFER,
    /// SHADER_STORAGE_BUFFER).
    pub fn to_gl(self) -> (r: u32)
        ensures
            r == spec_buffer_usage_gl(self),
    {
        match self {
            BufferUsage::Attribute => 0x8892,
            BufferUsage::Index => 0x8893,
            BufferUsage::Uniform => 0x8A11,
            BufferUsage::Storage => 0x90D2,
        }
    }
}

pub open spec fn spec_buffer_usage_gl(u: BufferUsage) -> u32 {
    match u {
        BufferUsage::Attribute => 0x8892,
        BufferUsage::Index => 0x8893,
        BufferUsage::Uniform => 0x8A11,
        BufferUsage::Storage => 0x90D2,
    }
}

/// How a bound image may be accessed.
#[derive(Clone, Copy, Debug, PartialEq, Eq, Structural)]
pub enum AccessType {
    WriteOnly,
    ReadOnly,
    ReadWrite,
}

impl AccessType {
    /// The device enumerant for this access kind (WRITE_ONLY, READ_ONLY,
    /// READ_WRITE).
    pub fn to_gl(self) -> (r: u32)
        ensures
            r == spec_access_type_gl(self),
    {
        match self {
            AccessType::WriteOnly => 0x88B9,
            AccessType::ReadOnly => 0x88B8,
            AccessType::ReadWrite => 0x88BA,
        }
    }
}

pub open spec fn spec_access_type_gl(a: AccessType) -> u32 {
    match a {
        AccessType::WriteOnly => 0x88B9,
        AccessType::ReadOnly => 0x88B8,
        AccessType::ReadWrite => 0x88BA,
    }
}

} // verus!
