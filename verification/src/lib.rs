//! Verified core of a digit-sketching application: a dense row-major matrix
//! engine, the structural part of a feed-forward neural network, a brush
//! canvas with premultiplied-alpha compositing, an IDX dataset decoder, and
//! the schedule of the background training loop.
//!
//! Matrix entries, brush parameters and the learning rate are held as opaque
//! 32-bit scalar codes; the embedding application interprets them as IEEE-754
//! single-precision numbers and performs all scalar arithmetic on them. The
//! verified core guarantees shapes, element placement, boundary handling and
//! error reporting exactly.

pub mod canvas;
pub mod data_reader;
pub mod math;
pub mod neural_net;
pub mod trainer;
