//! The interface of the engine's matrices.
use vstd::prelude::*;

verus! {

/// Core trait for any M x N matrix.
pub trait Matrix<T>: Sized where
    T: Copy + Default + std::ops::Add<Output = T> + std::ops::Mul<Output = T>,
 {
    /// Create a new matrix filled with a default value.
    fn new(rows: usize, cols: usize) -> Self;

    /// Create an identity matrix (must be square).
    fn identity(size: usize) -> Self;

    /// Returns the dimensions as (rows, columns).
    fn dimensions(&self) -> (usize, usize);

    /// Access an element at (row, col) without bounds checking.
    fn get_unchecked(&self, row: usize, col: usize) -> T;

    /// Set an element at (row, col).
    fn set(&mut self, row: usize, col: usize, value: T);

    /// Transpose the matrix.
    fn transpose(&self) -> Self;

    /// Standard Matrix Multiplication (Dot Product).
    fn multiply(&self, other: &Self) -> Self;

    /// Scalar multiplication.
    fn scale(&mut self, factor: T);
}

} // verus!
