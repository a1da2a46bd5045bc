use vstd::prelude::*;

use crate::handle::{spec_buffer_usage_gl, BufferUsage, GLHandle};
use crate::material::GlCommand;

verus! {

/// A buffer stored on the device: its handle, its element count and the
/// size of one element.  The upload itself is device-shell work.
pub struct GLBuffer {
    handle: GLHandle,
    len: usize,
    elem_bytes: usize,
}

impl GLBuffer {
    pub closed spec fn spec_handle(self) -> GLHandle {
        self.handle
    }

    pub closed spec fn spec_len(self) -> usize {
        self.len
    }

    pub closed spec fn spec_elem_bytes(self) -> usize {
        self.elem_bytes
    }

    /// Record an uploaded buffer of `len` elements of `elem_bytes` each.
    pub fn new(handle: GLHandle, len: usize, elem_bytes: usize) -> (r: GLBuffer)
        requires
            len * elem_bytes <= usize::MAX,
        ensures
            r.spec_handle() == handle,
            r.spec_len() == len,
            r.spec_elem_bytes() == elem_bytes,
    {
        GLBuffer { handle, len, elem_bytes }
    }

    pub fn handle(&self) -> (r: &GLHandle)
        ensures
            *r == self.spec_handle(),
    {
        &self.handle
    }

    /// The number of elements in the buffer.
    pub fn size(&self) -> (r: usize)
        ensures
            r == self.spec_len(),
    {
        self.len
    }

    /// The buffer's size in bytes.
    pub fn byte_size(&self) -> (r: usize)
        requires
            self.spec_len() * self.spec_elem_bytes() <= usize::MAX,
        ensures
            r == self.spec_len() * self.spec_elem_bytes(),
    {
        self.len * self.elem_bytes
    }

    /// The command that binds the buffer to the given binding point.
    pub fn bind(&self, usage: BufferUsage) -> (r: GlCommand)
        ensures
            r == GlCommand::BindBuffer(spec_buffer_usage_gl(usage), self.spec_handle().spec_get()),
    {
        GlCommand::BindBuffer(usage.to_gl(), self.handle.get())
    }

    /// The command that binds the buffer to an indexed binding point;
    /// only uniform and storage buffers have indexed points.
    pub fn bind_to(&self, usage: BufferUsage, index: u32) -> (r: GlCommand)
        requires
            usage == BufferUsage::Uniform || usage == BufferUsage::Storage,
        ensures
            r == GlCommand::BindBufferBase(
                spec_buffer_usage_gl(usage),
                index,
                self.spec_handle().spec_get(),
            ),
    {
        GlCommand::BindBufferBase(usage.to_gl(), index, self.handle.get())
    }
}

} // verus!
