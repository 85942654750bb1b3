//! The stored form of a registered application.
use vstd::prelude::*;

verus! {

/// A registered application as stored: its identity, and its program and keys
/// in serialized form.
#[derive(Debug)]
pub struct AppRow {
    pub app_id: String,
    pub program: Vec<u8>,
    pub pk: Vec<u8>,
    pub vk: Vec<u8>,
    pub info: Option<String>,
}

} // verus!
