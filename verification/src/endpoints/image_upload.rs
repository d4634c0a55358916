use vstd::prelude::*;

use crate::processing_elements::{Io, IoFragment};
use crate::vk_init::{GpuBuffer, VkContext};

verus! {

/// The bytes an upload leaves in a buffer of the given length: the host
/// data truncated to the length, zero-padded beyond the data's end.
pub open spec fn upload_content(len: nat, data: Seq<u8>) -> Seq<u8> {
    Seq::new(
        len,
        |i: int|
            if i < data.len() {
                data[i]
            } else {
                0u8
            },
    )
}

/// Host-side handle on a pipeline's input: writes frame bytes into the
/// fragment's upload buffer before each submission.
pub struct ImageUpload {
    io: IoFragment,
}

impl ImageUpload {
    /// The upload buffer this endpoint writes.
    pub closed spec fn buffer_spec(self) -> GpuBuffer {
        self.io.input->Buffer_0
    }

    pub closed spec fn wf(self) -> bool {
        self.io.input matches Io::Buffer(_)
    }

    /// Adopt a fragment whose input is a host-writable buffer; any other
    /// fragment kind is rejected.
    pub fn from_io(io: IoFragment) -> (r: Result<ImageUpload, &'static str>)
        ensures
            match r {
                Ok(u) => {
                    &&& io.input matches Io::Buffer(b)
                    &&& u.wf()
                    &&& u.buffer_spec() == b
                },
                Err(_) => !(io.input matches Io::Buffer(_)),
            },
    {
        match &io.input {
            Io::Buffer(_) => Ok(ImageUpload { io }),
            _ => Err("Input needs to be a buffer"),
        }
    }

    /// Write host bytes into the pipeline's input buffer, truncating or
    /// zero-padding to the buffer's fixed byte length. Touches no other
    /// resource, so it is safe to call every frame.
    pub fn copy_input_data(&self, ctx: &mut VkContext, data: &[u8])
        requires
            self.wf(),
            old(ctx)@.valid_buffer(self.buffer_spec()),
        ensures
            final(ctx)@.images == old(ctx)@.images,
            final(ctx)@.buffers.len() == old(ctx)@.buffers.len(),
            forall|i: int|
                0 <= i < old(ctx)@.buffers.len() && i != self.buffer_spec().id
                    ==> final(ctx)@.buffers[i] == old(ctx)@.buffers[i],
            final(ctx)@.buffers[self.buffer_spec().id as int] == upload_content(
                self.buffer_spec().len as nat,
                data@,
            ),
            final(ctx)@.valid_buffer(self.buffer_spec()),
    {
        let buf = match &self.io.input {
            Io::Buffer(b) => *b,
            _ => {
                proof {
                    assert(false);
                }
                return ;
            },
        };
        let len = buf.len;
        let mut content: Vec<u8> = Vec::new();
        let mut i: u32 = 0;
        while i < len
            invariant
                i <= len,
                content@ =~= upload_content(len as nat, data@).subrange(0, i as int),
            decreases len - i,
        {
            if (i as usize) < data.len() {
                content.push(data[i as usize]);
            } else {
                content.push(0u8);
            }
            i = i + 1;
        }
        proof {
            assert(content@ =~= upload_content(len as nat, data@));
        }
        ctx.buffers[buf.id] = content;
        proof {
            assert(final(ctx)@.images =~= old(ctx)@.images);
        }
    }
}

} // verus!
