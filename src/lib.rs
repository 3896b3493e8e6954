//! A newsletter subscription service core: subscriber registration and
//! confirmation, credential checks for publishers, signed messages for
//! stateless redirects, and fault-isolated delivery of an issue.

pub mod auth;
pub mod domain;
pub mod login;
pub mod newsletters;
pub mod registry;
pub mod signing;
