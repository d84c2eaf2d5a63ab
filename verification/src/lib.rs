//! Cordial's session custody, browser-account matching and crash reporting,
//! as verified decisions over plain values.

pub mod text;
pub mod crash;
pub mod secrets;
pub mod custody;
pub mod browser_account;
