//! Bayes' rule over exact rational probabilities.
//!
//! A probability is a non-negative fraction (`Ratio`). The posterior of a
//! hypothesis after an observation is `prior * likelihood / evidence`,
//! computed without rounding. Zero evidence is reported as an error rather
//! than producing a non-finite value.
pub mod ratio;
pub mod posterior;
