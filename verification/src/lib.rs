//! Discovery of a pre-built QuEST installation and of the compiler and linker
//! settings needed to build against it.

pub mod classify;
pub mod compile;
pub mod diagnostics;
pub mod directive;
pub mod fallback;
pub mod json;
pub mod pipeline;
pub mod reply;
pub mod request;
pub mod result;
pub mod target;
pub mod text;
pub mod unique;
