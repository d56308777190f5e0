//! Verified core of the US stock dashboard API: request parameter parsing,
//! bearer-token authorization, configuration assembly, error responses and
//! the day-over-day breadth difference.
pub mod api;
pub mod auth;
pub mod config;
pub mod entities;
pub mod error;
pub mod outside;
pub mod text;
