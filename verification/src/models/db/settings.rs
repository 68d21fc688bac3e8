//! `settings` table model.

use vstd::prelude::*;

verus! {

/// A key/value server or user setting.
#[derive(Debug, Clone)]
pub struct Setting {
    pub key: String,
    pub value: String,
}

} // verus!
