//! Dense, row-major, multi-dimensional arrays with explicit shape and stride
//! bookkeeping, and elementwise arithmetic over them.

pub mod shape;
pub mod scalar;
pub mod ndarray;
pub mod elementwise;
pub mod darray;
pub mod ndarray_builder;
