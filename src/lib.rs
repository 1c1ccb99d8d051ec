//! A spinning reader-writer lock: any number of readers, or one writer,
//! decided by compare-and-swap on a single state word.
pub mod lock;
pub mod protocol;
pub mod state;
