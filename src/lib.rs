//! A readiness-based I/O reactor: a table of registrations with per-direction readiness
//! and wakers, the protocol by which operations poll it, and a driver that waits on the
//! OS multiplexer and takes wake requests from other threads.


pub mod ready;
pub mod scheduled_io;
pub mod slab;
pub mod reactor;
pub mod wake;
pub mod driver;
