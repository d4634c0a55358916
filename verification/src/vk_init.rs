use vstd::prelude::*;

use crate::utils::ImageInfo;

verus! {

/// Handle to a GPU storage image. The image itself lives on the device; the
/// handle carries the identifier under which the context registered it
/// together with the immutable dimensions and format.
#[derive(Clone, Copy, Debug, PartialEq, Eq, Structural)]
pub struct GpuImage {
    pub id: usize,
    pub info: ImageInfo,
}

/// Handle to a host-visible GPU buffer of a fixed byte length.
#[derive(Clone, Copy, Debug, PartialEq, Eq, Structural)]
pub struct GpuBuffer {
    pub id: usize,
    pub len: u32,
}

/// The resource allocator's registry: every image and buffer a pipeline build
/// allocates is recorded here. Images are immutable once created; buffer
/// contents start zeroed and are written only by the upload endpoint (and by
/// the device when a submitted sequence copies results back).
///
/// Device and queue acquisition happen outside the library; a context is
/// handed in empty and only ever grows, so handles stay valid across later
/// builds.
pub struct VkContext {
    pub images: Vec<ImageInfo>,
    pub buffers: Vec<Vec<u8>>,
}

/// The registry as a mathematical value: the descriptor of every image and
/// the contents of every buffer, in allocation order.
pub struct VkContextView {
    pub images: Seq<ImageInfo>,
    pub buffers: Seq<Seq<u8>>,
}

impl View for VkContext {
    type V = VkContextView;

    open spec fn view(&self) -> VkContextView {
        VkContextView {
            images: self.images@,
            buffers: self.buffers@.map_values(|b: Vec<u8>| b@),
        }
    }
}

impl VkContextView {
    /// `img` was allocated by this context and its metadata agrees with the
    /// registry.
    pub open spec fn valid_image(self, img: GpuImage) -> bool {
        &&& img.id < self.images.len()
        &&& self.images[img.id as int] == img.info
    }

    /// `buf` was allocated by this context with the length it claims.
    pub open spec fn valid_buffer(self, buf: GpuBuffer) -> bool {
        &&& buf.id < self.buffers.len()
        &&& self.buffers[buf.id as int].len() == buf.len
    }

    /// `self` contains everything `prev` contained, unchanged: pipeline
    /// builds only append resources, so handles held by an older pipeline
    /// keep their meaning after a rebuild.
    pub open spec fn extends(self, prev: VkContextView) -> bool {
        &&& prev.images.len() <= self.images.len()
        &&& forall|i: int| 0 <= i < prev.images.len() ==> self.images[i] == prev.images[i]
        &&& prev.buffers.len() <= self.buffers.len()
        &&& forall|i: int| 0 <= i < prev.buffers.len() ==> self.buffers[i] == prev.buffers[i]
    }

    /// The registry grown by one image.
    pub open spec fn with_image(self, info: ImageInfo) -> VkContextView {
        VkContextView { images: self.images.push(info), ..self }
    }

    /// The registry grown by one zeroed buffer of `len` bytes.
    pub open spec fn with_buffer(self, len: u32) -> VkContextView {
        VkContextView { buffers: self.buffers.push(Seq::new(len as nat, |i: int| 0u8)), ..self }
    }
}

impl VkContext {
    /// A fresh registry, to be paired with a newly initialised device.
    pub fn new() -> (r: VkContext)
        ensures
            r@.images.len() == 0,
            r@.buffers.len() == 0,
    {
        VkContext { images: Vec::new(), buffers: Vec::new() }
    }

    /// Register a new image with the given descriptor.
    pub fn register_image(&mut self, info: ImageInfo) -> (img: GpuImage)
        ensures
            img.id == old(self)@.images.len(),
            img.info == info,
            final(self)@ == old(self)@.with_image(info),
            final(self)@.valid_image(img),
            final(self)@.extends(old(self)@),
    {
        let id = self.images.len();
        self.images.push(info);
        proof {
            assert(self@.buffers =~= old(self)@.buffers);
            assert(self@ =~= old(self)@.with_image(info));
        }
        GpuImage { id, info }
    }

    /// Register a new host-visible buffer of `len` bytes, zero-initialised
    /// as the device allocator delivers it.
    pub fn register_buffer(&mut self, len: u32) -> (buf: GpuBuffer)
        ensures
            buf.id == old(self)@.buffers.len(),
            buf.len == len,
            final(self)@ == old(self)@.with_buffer(len),
            final(self)@.valid_buffer(buf),
            final(self)@.extends(old(self)@),
    {
        let id = self.buffers.len();
        let mut content: Vec<u8> = Vec::new();
        let mut i: u32 = 0;
        while i < len
            invariant
                i <= len,
                content@ =~= Seq::<u8>::new(i as nat, |j: int| 0u8),
            decreases len - i,
        {
            content.push(0u8);
            i = i + 1;
        }
        self.buffers.push(content);
        proof {
            assert(content@ =~= Seq::<u8>::new(len as nat, |j: int| 0u8));
            assert(self@.images =~= old(self)@.images);
            assert(self@.buffers =~= old(self)@.buffers.push(content@));
            assert(self@ =~= old(self)@.with_buffer(len));
        }
        GpuBuffer { id, len }
    }
}

/// Growth is transitive: a context extended twice still extends the
/// original.
pub proof fn lemma_extends_transitive(c3: VkContextView, c2: VkContextView, c1: VkContextView)
    requires
        c3.extends(c2),
        c2.extends(c1),
    ensures
        c3.extends(c1),
{
}

/// Handles survive growth: anything valid in a context stays valid in every
/// extension of it, which is what keeps an already-built pipeline usable
/// after further pipelines are built from the same context.
pub proof fn lemma_extends_preserves_validity(c2: VkContextView, c1: VkContextView)
    requires
        c2.extends(c1),
    ensures
        forall|img: GpuImage| c1.valid_image(img) ==> c2.valid_image(img),
        forall|buf: GpuBuffer| c1.valid_buffer(buf) ==> c2.valid_buffer(buf),
{
}


/// The classes a compute-capable physical device can fall into.
#[derive(Clone, Copy, Debug, PartialEq, Eq, Structural)]
pub enum PhysicalDeviceKind {
    DiscreteGpu,
    IntegratedGpu,
    VirtualGpu,
    Cpu,
    Other,
}

/// Selection rank of a device class: lower is preferred. The policy prefers
/// discrete over integrated over virtual over CPU devices; anything else
/// comes last. The caller that enumerates devices picks the minimum.
pub fn device_preference_rank(kind: PhysicalDeviceKind) -> (r: u32)
    ensures
        r == (match kind {
            PhysicalDeviceKind::DiscreteGpu => 0u32,
            PhysicalDeviceKind::IntegratedGpu => 1u32,
            PhysicalDeviceKind::VirtualGpu => 2u32,
            PhysicalDeviceKind::Cpu => 3u32,
            PhysicalDeviceKind::Other => 4u32,
        }),
{
    match kind {
        PhysicalDeviceKind::DiscreteGpu => 0,
        PhysicalDeviceKind::IntegratedGpu => 1,
        PhysicalDeviceKind::VirtualGpu => 2,
        PhysicalDeviceKind::Cpu => 3,
        PhysicalDeviceKind::Other => 4,
    }
}

} // verus!
