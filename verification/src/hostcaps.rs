//! Deployment-environment capabilities of the host.
//!
//! This build carries no site-specific detection: every host is reported
//! as belonging to no managed environment.

use vstd::prelude::*;

verus! {

/// The numeric code of the "no managed environment" answer.
pub const ENV_NONE: u8 = 0;

/// The environment code of this host.
pub fn get_env() -> (env: u8)
    ensures
        env == ENV_NONE,
{
    ENV_NONE
}

/// Whether this host is a production machine.
pub fn is_prod() -> (yes: bool)
    ensures
        !yes,
{
    false
}

/// Whether this host is on the corporate network.
pub fn is_corp() -> (yes: bool)
    ensures
        !yes,
{
    false
}

/// Whether this host is a lab machine.
pub fn is_lab() -> (yes: bool)
    ensures
        !yes,
{
    false
}

} // verus!
