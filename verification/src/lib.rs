//! Core of a manga-page "clean and translate" pipeline: decoding a detector's
//! raw tensor rows into classified boxes, per-class non-maximum suppression,
//! segmentation-mask cleanup, mapping rectangles between source-image space
//! and mask space, extraction of inference-ready (image crop, mask crop)
//! pairs, reconciliation of the inpainting model's output buffer, and a
//! single-slot cache for the primed page. All coordinates are integer pixel
//! positions; callers quantize the detector's fractional outputs before they
//! enter the library.

pub mod accuracy;
pub mod buffer;
pub mod cache;
pub mod detect;
pub mod error;
pub mod extract;
pub mod geometry;
pub mod host;
pub mod mask;
pub mod nms;
pub mod reconcile;
