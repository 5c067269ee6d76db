//! Core of a small recipe-catalogue backend: a fixed-window request rate
//! limiter, recipe modelling and rendering, and construction of the issue
//! link that a community submission is forwarded to.

pub mod clock;
pub mod github;
pub mod models;
pub mod rate_limiter;
pub mod text;
