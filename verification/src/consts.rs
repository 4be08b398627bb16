use vstd::prelude::*;

verus! {

/// Records on one page.
pub const PAGE_SIZE: u64 = 32;
/// The largest request, in bytes.
pub const REQUEST_SIZE: u64 = 60000;
/// Bytes that a detail grows by.
pub const DETAIL_ADDED_SIZE: u64 = 256;
/// The longest detail, in bytes.
pub const DETAIL_MAX_LENGTH: u64 = 20000;
/// The longest snake, in bytes.
pub const SNAKE_MAX_LENGTH: u64 = 32768;

/// The record is alive.
pub const FLAG_ALIVE: u64 = 1;
/// The record was edited.
pub const FLAG_EDITED: u64 = 2;
/// The record is private.
pub const FLAG_PRIVATE: u64 = 4;
/// The dish can be ordered.
pub const FLAG_DISH_AVAILABLE: u64 = 65536;
/// The eatery is closed.
pub const FLAG_EATERY_CLOSED: u64 = 65536;

} // verus!
