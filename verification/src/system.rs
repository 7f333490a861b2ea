//! What only the system can say.
//!
//! The predicates here are closed: code outside this module can establish one
//! of a value only by asking the system for that value. A contract that speaks
//! of one therefore says where the value comes from, and not only what form it
//! has.

use crate::time::{is_local_time, Timestamp};
use crate::utils::may_be_file_name;
use vstd::prelude::*;

verus! {

/// The clock has shown `now`.
pub closed spec fn clock_showed(now: Timestamp) -> bool {
    now.is_reading()
}

/// The clock has shown the local time that `text` writes out.
pub closed spec fn clock_showed_text(text: Seq<char>) -> bool {
    is_local_time(text)
}

/// The system has given `file` as the file name of `path`.
pub closed spec fn gave_file_name(path: Seq<char>, file: Option<Seq<char>>) -> bool {
    may_be_file_name(path, file)
}

} // verus!
