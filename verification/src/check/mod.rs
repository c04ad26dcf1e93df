pub mod algorithms;
pub mod checker;
pub mod events;
pub mod laws;

pub use checker::{Checker, MAX_RETRY_TIMES};
pub use events::{Event, RetryTimes};
