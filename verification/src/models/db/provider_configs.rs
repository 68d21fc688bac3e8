//! `provider_configs` table model.

use vstd::prelude::*;

verus! {

/// A row in the `provider_configs` table.
#[derive(Debug, Clone)]
pub struct ProviderConfig {
    pub provider_id: String,
    pub enabled: bool,
    pub priority: i32,
    pub config_json: String,
}

} // verus!
