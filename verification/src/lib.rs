//! Service monitoring core: configuration resolution with template
//! inheritance, the SOFT/HARD service state machine, check result
//! bookkeeping and the text rules that turn results into log lines and
//! alert messages.

pub mod text;
pub mod registry;
pub mod config;
pub mod checks;
pub mod engine;
pub mod alert;
pub mod mail;
