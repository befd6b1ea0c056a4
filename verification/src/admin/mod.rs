//! What the operators of the proxy control: idle mode.
pub mod idle;
pub mod laws;
pub mod release;
pub mod replies;
pub mod watchdog;
