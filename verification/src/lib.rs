//! Verified core of an access-control administration plugin: credential
//! handling, rate limiting, password-reset codes, ACL persistence planning
//! and the text command interface.

pub mod hex;
pub mod crypto;
pub mod assoc;
pub mod clock;
pub mod rate_limit;
pub mod reset_codes;
pub mod auth;
pub mod text;
pub mod acl;
pub mod command;
pub mod api;
pub mod reply;
pub mod web;
