//! Core of a desktop notification popup daemon.
//!
//! The crate owns the notification queue (unread/read state with ring-buffer
//! eviction), the pure layout algorithm that turns notifications into styled
//! text blocks with click-target bounds, the glob matching used by styling
//! rules, the window position calculation, and the event-loop policy. The
//! windowing, drawing and persistence collaborators live outside the crate
//! and drive it through plain values.

pub mod cli;
pub mod config;
pub mod error;
pub mod event;
pub mod history;
pub mod layout;
pub mod manager;
pub mod markup;
pub mod notification;
pub mod pattern;
pub mod position;
