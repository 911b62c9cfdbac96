//! What goes wrong while a tool call's arguments are read.

use vstd::prelude::*;

verus! {

/// Why a text is not JSON, or a JSON value is not what a tool takes.
#[derive(Debug)]
pub struct DecodeError {
    pub message: String,
}

} // verus!
