//! Account logic of a small two-factor authentication service: accounts
//! identified by email with a hashed password and a Google Authenticator
//! secret, one-use tokens sent by mail for registration and password reset,
//! and the line-per-record text that stores them.
use vstd::prelude::*;

pub mod authenticator;
pub mod constant;
pub mod credential;
pub mod crypto;
pub mod dialog;
pub mod mail;
pub mod password;
pub mod records;
pub mod routing;
pub mod search;
pub mod text;
pub mod time;
pub mod token;
