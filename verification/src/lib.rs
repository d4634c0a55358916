//! A compute-pipeline composition engine for a GPU-resident object-centroid
//! tracker, modelled and verified over plain data.
//!
//! The library builds linear chains of compute stages into command sequences,
//! tracks the GPU resources they allocate, and proves the arithmetic of the
//! hierarchical centroid reduction. Device discovery, shader execution and
//! camera input are collaborators that live outside the library; they consume
//! the command sequences and resource descriptions produced here.

pub mod endpoints;
pub mod processing_elements;
pub mod reduction;
pub mod utils;
pub mod vk_init;
