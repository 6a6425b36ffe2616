pub mod db;
pub mod events_helper;
pub mod laws;
pub mod matcher;
pub mod protocol;
