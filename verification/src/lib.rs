//! Keeps a kernel-resident component informed of which numeric user ID owns
//! each installed package: the rules for scanning application data
//! directories, for packing the findings into the fixed-capacity record the
//! kernel accepts, for judging the kernel's answer, and for deciding when a
//! fresh scan is due.

pub mod monitor;
pub mod names;
pub mod record;
pub mod scanner;
pub mod submit;
