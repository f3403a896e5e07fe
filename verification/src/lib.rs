//! The decisions of a Vulkan renderer for Wayland compositors.
//!
//! A compositor is handed buffers by its clients and has to put them on a
//! screen. This library decides how: which device to open, which formats to
//! advertise, how a DMA-BUF becomes an image, what a frame records and in which
//! order, where a rectangle of the desktop lands in the framebuffer, and what is
//! given back when any of it fails.
//!
//! Nothing here talks to a driver. What needs one is written as a conversation:
//! a value such as [`import::Import`] says which request comes next, and is told
//! what came of it. A recording is a list of [`vulkan::Command`]s. Handles are
//! numbers, and floating-point values are carried as the bits they are made of.
use vstd::prelude::*;

pub mod allocation;
pub mod cache;
pub mod canvas;
pub mod color;
pub mod command;
pub mod device;
pub mod error;
pub mod format;
pub mod geometry;
pub mod image;
pub mod import;
pub mod paint;
pub mod pipeline;
pub mod pixels;
pub mod render;
pub mod renderer;
pub mod staging;
pub mod sync;
pub mod text;
pub mod transform;
pub mod vulkan;
pub mod wayland;

pub use command::Commands;
pub use device::Device;
pub use error::Error;
pub use image::{Image, Purpose};
pub use pipeline::Pipelines;
pub use render::{Color, Frame};
pub use renderer::{VulkanFrame, VulkanMapping, VulkanRenderer, VulkanTexture};

verus! {

} // verus!
