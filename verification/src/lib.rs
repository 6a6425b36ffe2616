pub mod client;
pub mod driver;
pub mod keyed;
pub mod market;
pub mod payments;
pub mod transfer;
