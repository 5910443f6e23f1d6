//! A shared, mutually exclusive "token" that participants queue up to hold,
//! one channel at a time.
//!
//! Each channel has its own [`token::Token`] queue: an ordered, duplicate-free
//! line of [`token::User`]s, whose head holds the token. A [`registry::Tokens`]
//! registry maps channel keys to independently locked queues, creating them
//! lazily on first access.

pub mod commands;
pub mod config;
pub mod dispatch;
pub mod registry;
pub mod slack;
pub mod token;
