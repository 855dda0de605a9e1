//! A structured-matrix layer over a dense, stride-addressed container:
//! square-matrix validation, memory-layout resolution, triangular-system
//! dispatch to a native solver binding, and triangular masking.

pub mod error;
pub mod layout;
pub mod scalar;
pub mod matrix;
pub mod square;
pub mod solve;
pub mod triangular;
