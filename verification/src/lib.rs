//! Incremental orthogonalization and deflated eigenpair extraction.
//!
//! Two drivers of iterative linear algebra live here. [`krylov::qr`] feeds a
//! stream of vectors to an [`krylov::Orthogonalizer`] and assembles the
//! triangular factor; [`eig::TruncatedEigIterator`] turns single block
//! eigen-steps into a deflating sequence of eigenpair batches.
//!
//! Every real number is carried as the bit pattern of its IEEE 754 binary64
//! encoding (see [`scalar`]); the arithmetic on those numbers belongs to the
//! orthogonalizer and to the block eigensolver, which the caller supplies.
pub mod dense;
pub mod eig;
pub mod krylov;
pub mod scalar;
