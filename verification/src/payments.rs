pub mod agreement;
pub mod amount;
pub mod debit_notes;
pub mod events;
pub mod laws;
pub mod payment_checker;
pub mod payments;
