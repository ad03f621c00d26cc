//! Verified core of a web-worker executor: how many workers a pool gets and
//! what they are called, when a pool's handles shut its workers down, what a
//! worker does with each message it receives, the wake-up protocol of a task,
//! and the arithmetic of the factorial demo.
pub mod bignat;
pub mod decimal;
pub mod factorial;
pub mod pool;
pub mod unpark;
