//! Peripheral handles.
pub mod gpio;
