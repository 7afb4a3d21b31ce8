//! Read-only airport lookup: a dataset loaded once, listed and searched
//! through a clamped pagination window.

pub mod page;
pub mod text;
pub mod airport;
pub mod search;
