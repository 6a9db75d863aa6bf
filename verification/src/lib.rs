//! Fixed-capacity building blocks for bare-metal programs: byte buffers used as a
//! queue, a stack or an arena; a bounded single-producer single-consumer queue; a
//! queue of book entry ids; fixed-size strings and page records with a byte layout;
//! a packet frame; system call result decoding; the state rules of three spin locks;
//! and fixed-point sound generators.

use vstd::prelude::*;

pub mod arith;
pub mod buffer;
pub mod library;
pub mod mobius;
pub mod page;
pub mod proto;
pub mod ring;
pub mod siren;
pub mod syscall;
pub mod thread;
pub mod types;
pub mod wavelet;

pub use buffer::{Arena, Buffer, Stack};
pub use library::{train_queue, Library, TrainStep};
pub use mobius::{Mobius, MobiusParams};
pub use proto::Proto;
pub use ring::{CacheLineAligned, Ring};
pub use siren::{Siren, SirenParams};
pub use syscall::check_err;
pub use types::{KyaaaAssign, Str};
pub use wavelet::{Wavelet, WaveletParams};
