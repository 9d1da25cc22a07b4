//! Printing a syntax tree as WGSL text.

pub mod wgsl;
pub mod wgsl_text;
pub mod laws;
pub mod wf_check;
