//! Verified core of a CS:GO process-memory reader: byte-signature patterns,
//! remote address arithmetic, the process and module bookkeeping, and the
//! entity scan that decides which players are alive.
pub mod hazedumper;
pub mod mem;
pub mod player;
pub mod runtime;
