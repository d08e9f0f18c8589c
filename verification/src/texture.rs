//! The per-texture resource record the renderer keeps once a texture is
//! uploaded: the image, the view onto it, and the sampler.  Creating
//! these resources on the GPU is the rendering backend's work; this
//! record carries their handles and the image's dimensions so the rest
//! of the engine can refer to them.

use vstd::prelude::*;

verus! {

/// An uploaded image: its handle and pixel dimensions.
#[derive(Clone, Copy, PartialEq, Eq, Structural, Debug)]
pub struct Image {
    pub handle: u64,
    pub width: u32,
    pub height: u32,
}

/// A view onto an uploaded image.
#[derive(Clone, Copy, PartialEq, Eq, Structural, Debug)]
pub struct ImageView {
    pub handle: u64,
}

/// A sampler configured for an uploaded image.
#[derive(Clone, Copy, PartialEq, Eq, Structural, Debug)]
pub struct Sampler {
    pub handle: u64,
}

/// The triple of resources backing one texture.
#[derive(Clone, Copy, PartialEq, Eq, Structural, Debug)]
pub struct VulkanTexture {
    pub image: Image,
    pub image_view: ImageView,
    pub sampler: Sampler,
}

impl VulkanTexture {
    /// Record the resources of one uploaded texture.
    pub fn new(image: Image, image_view: ImageView, sampler: Sampler) -> (r: VulkanTexture)
        ensures
            r == (VulkanTexture { image, image_view, sampler }),
    {
        VulkanTexture { image, image_view, sampler }
    }

    pub fn image(&self) -> (r: &Image)
        ensures
            r == self.image,
    {
        &self.image
    }

    pub fn image_view(&self) -> (r: &ImageView)
        ensures
            r == self.image_view,
    {
        &self.image_view
    }

    pub fn sampler(&self) -> (r: &Sampler)
        ensures
            r == self.sampler,
    {
        &self.sampler
    }
}

} // verus!
