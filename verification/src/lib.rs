//! The decisions of a credential administration service, verified with Verus.
#![allow(unused_imports)]

pub mod amount;
pub mod balance;
pub mod cache_stats;
pub mod classify;
pub mod config;
pub mod double;
pub mod error;
pub mod import;
pub mod service;
pub mod sorting;
pub mod summary;
pub mod text;
pub mod types;
pub mod verify;
