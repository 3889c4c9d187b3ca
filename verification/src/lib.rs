//! An audio I/O abstraction core: descriptors for signals (decoded,
//! interleaved samples) and streams (encoded bytes), codec tag dispatch,
//! duration conversion, and blocking copy/pipe loops that move data from a
//! reader to a writer with retry on transient errors.

pub mod codec;
pub mod copy;
pub mod descriptor;
pub mod duration;
pub mod error;
pub mod signal;
pub mod stream;
pub mod stream_copy;

pub use codec::KnownCodec;
pub use error::SyphonError;
