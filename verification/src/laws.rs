//! What holds of the library as a whole: laws that relate several operations, or
//! one operation on several inputs, stated over the models that the operations'
//! own contracts speak of.
pub mod bucketing;
pub mod caching;
pub mod evaluating;
pub mod integrating;
pub mod modelling;
pub mod targeting;
