//! Core logic of an identity broker: e-mail domain validation under public-suffix
//! rules, signing-key sets and compact JWS handling, configuration string lists, and
//! single-use login sessions.

pub mod domain_validator;
pub mod jws;
pub mod labels;
pub mod session;
pub mod string_list;
pub mod token;
