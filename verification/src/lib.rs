//! Verified core of a small HTTP-to-DynamoDB admin adapter: request routing,
//! attribute-value translation, memo-record handling and response shaping.

pub mod strings;
pub mod values;
pub mod memo;
pub mod service;
pub mod router;
pub mod response;
