//! A personal productivity toolbox centred on a task scheduler with
//! multi-channel reminder delivery (desktop notification, email, and
//! SMS through an email-to-SMS gateway), with retry and failure
//! tracking, plus the surrounding configuration model.

pub mod app_state;
pub mod backup;
pub mod codec;
pub mod config;
pub mod delivery;
pub mod logging;
pub mod password;
pub mod scheduler;
pub mod task;
pub mod text;
pub mod time;
pub mod trigger;
