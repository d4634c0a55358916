use vstd::prelude::*;

use crate::processing_elements::{Io, IoFragment};
use crate::utils::ImageInfo;
use crate::vk_init::{GpuBuffer, VkContext};

verus! {

/// A downloaded image: the output buffer's bytes together with the
/// dimensions and format of the image they were copied from.
pub struct TransferredImage {
    pub info: ImageInfo,
    pub buffer: Vec<u8>,
}

impl TransferredImage {
    pub fn buffer_content(&self) -> (r: &Vec<u8>)
        ensures
            r@ == self.buffer@,
    {
        &self.buffer
    }

    pub fn info(&self) -> (r: ImageInfo)
        ensures
            r == self.info,
    {
        self.info
    }
}

/// Host-side handle on a pipeline's output: reads the readback buffer into
/// host memory after a submission completes.
pub struct ImageDownload {
    io: IoFragment,
    info: ImageInfo,
    buffer: Vec<u8>,
}

impl ImageDownload {
    /// The readback buffer this endpoint reads.
    pub closed spec fn buffer_spec(self) -> GpuBuffer {
        self.io.output->Buffer_0
    }

    /// Dimensions and format of the image the buffer holds.
    pub closed spec fn info_spec(self) -> ImageInfo {
        self.info
    }

    /// The bytes held from the most recent transfer.
    pub closed spec fn bytes_spec(self) -> Seq<u8> {
        self.buffer@
    }

    pub closed spec fn wf(self) -> bool {
        &&& self.io.output matches Io::Buffer(_)
        &&& self.io.input matches Io::Image(img) && self.info == img.info
    }

    /// Adopt a fragment that copies an image into a host-readable buffer;
    /// any other fragment kind is rejected.
    pub fn from_io(io: IoFragment) -> (r: Result<ImageDownload, &'static str>)
        ensures
            match r {
                Ok(d) => {
                    &&& io.output matches Io::Buffer(b)
                    &&& io.input matches Io::Image(img)
                    &&& d.wf()
                    &&& d.buffer_spec() == b
                    &&& d.info_spec() == img.info
                },
                Err(_) => !(io.output matches Io::Buffer(_) && io.input matches Io::Image(_)),
            },
    {
        let is_buffer = match &io.output {
            Io::Buffer(_) => true,
            _ => false,
        };
        if !is_buffer {
            return Err("Output needs to be a buffer");
        }
        match &io.input {
            Io::Image(img) => {
                let info = img.info;
                Ok(ImageDownload { io, info, buffer: Vec::new() })
            },
            _ => Err("Output needs to be a buffer"),
        }
    }

    pub fn image_info(&self) -> (r: ImageInfo)
        ensures
            r == self.info_spec(),
    {
        self.info
    }

    /// Read the output buffer's current bytes into host memory and hand
    /// them out with the image metadata.
    pub fn transfer(&mut self, ctx: &VkContext) -> (r: TransferredImage)
        requires
            old(self).wf(),
            ctx@.valid_buffer(old(self).buffer_spec()),
        ensures
            final(self).wf(),
            final(self).buffer_spec() == old(self).buffer_spec(),
            final(self).info_spec() == old(self).info_spec(),
            r.info == old(self).info_spec(),
            r.buffer@ == ctx@.buffers[old(self).buffer_spec().id as int],
            final(self).bytes_spec() == ctx@.buffers[old(self).buffer_spec().id as int],
    {
        let buf = match &self.io.output {
            Io::Buffer(b) => *b,
            _ => {
                proof {
                    assert(false);
                }
                return TransferredImage { info: self.info, buffer: Vec::new() };
            },
        };
        let src = &ctx.buffers[buf.id];
        let mut content: Vec<u8> = Vec::new();
        let mut i: usize = 0;
        while i < src.len()
            invariant
                i <= src@.len(),
                content@ =~= src@.subrange(0, i as int),
                src@ == ctx@.buffers[buf.id as int],
                buf.id < ctx@.buffers.len(),
            decreases src@.len() - i,
        {
            content.push(src[i]);
            i = i + 1;
        }
        proof {
            assert(content@ =~= ctx@.buffers[buf.id as int]);
        }
        self.buffer = content;
        let mut out: Vec<u8> = Vec::new();
        let mut j: usize = 0;
        while j < self.buffer.len()
            invariant
                j <= self.buffer@.len(),
                out@ =~= self.buffer@.subrange(0, j as int),
            decreases self.buffer@.len() - j,
        {
            out.push(self.buffer[j]);
            j = j + 1;
        }
        proof {
            assert(out@ =~= self.buffer@);
        }
        TransferredImage { info: self.info, buffer: out }
    }

    /// The bytes of the most recent transfer, without touching the device.
    pub fn transferred_image(&self) -> (r: TransferredImage)
        ensures
            r.info == self.info_spec(),
            r.buffer@ == self.bytes_spec(),
    {
        let mut out: Vec<u8> = Vec::new();
        let mut j: usize = 0;
        while j < self.buffer.len()
            invariant
                j <= self.buffer@.len(),
                out@ =~= self.buffer@.subrange(0, j as int),
            decreases self.buffer@.len() - j,
        {
            out.push(self.buffer[j]);
            j = j + 1;
        }
        proof {
            assert(out@ =~= self.buffer@);
        }
        TransferredImage { info: self.info, buffer: out }
    }
}

} // verus!
