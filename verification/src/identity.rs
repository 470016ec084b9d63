//! Credential resolution: which identity file a unit should authenticate
//! with.
//!
//! The rule is the one every host shares: an explicitly given identity file is
//! taken as-is; otherwise the first of the well-known default identity files
//! that exists on disk is used; with none existing, resolution fails fatally
//! before any connection is attempted. Whether a file exists is the caller's
//! input; the choice itself is decided and proved here.

use vstd::prelude::*;

use crate::errors::FleetError;

verus! {

/// How many well-known default identity files are searched.
pub const DEFAULT_IDENTITY_FILE_COUNT: usize = 4;

/// The path of the `i`-th default identity file, in search order.
pub open spec fn spec_default_identity_file(i: int) -> Seq<char> {
    if i == 0 {
        "~/.ssh/id_rsa"@
    } else if i == 1 {
        "~/.ssh/id_dsa"@
    } else if i == 2 {
        "~/.ssh/id_ecdsa"@
    } else {
        "~/.ssh/id_ed25519"@
    }
}

/// The `i`-th default identity file path, in search order.
pub fn default_identity_file(i: usize) -> (p: &'static str)
    requires
        i < DEFAULT_IDENTITY_FILE_COUNT,
    ensures
        p@ == spec_default_identity_file(i as int),
{
    if i == 0 {
        "~/.ssh/id_rsa"
    } else if i == 1 {
        "~/.ssh/id_dsa"
    } else if i == 2 {
        "~/.ssh/id_ecdsa"
    } else {
        "~/.ssh/id_ed25519"
    }
}

/// The outcome of credential resolution: either the identity file the
/// operator named, or the default file at the given search-order index.
#[derive(Debug, Clone, Copy, PartialEq, Eq)]
pub enum IdentityChoice {
    Given,
    Default(usize),
}

/// No default identity file exists at all.
pub open spec fn no_default_exists(exists: Seq<bool>) -> bool {
    forall|i: int| 0 <= i < exists.len() ==> !exists[i]
}

/// Resolve the identity file to authenticate with.
///
/// `has_given` says whether the operator named one explicitly;
/// `default_exists[i]` says whether the `i`-th default identity file exists.
/// A named file always wins; otherwise the first existing default is chosen;
/// with neither, resolution fails fatally before any connection attempt.
pub fn check_identity_file(has_given: bool, default_exists: &[bool; 4]) -> (r: Result<
    IdentityChoice,
    FleetError,
>)
    ensures
        has_given ==> r == Ok::<IdentityChoice, FleetError>(IdentityChoice::Given),
        !has_given && no_default_exists(default_exists@) ==> r == Err::<
            IdentityChoice,
            FleetError,
        >(FleetError::CredentialResolution),
        !has_given && !no_default_exists(default_exists@) ==> (r matches Ok(
            IdentityChoice::Default(j),
        ) && j < 4 && default_exists@[j as int] && (forall|k: int|
            0 <= k < j ==> !default_exists@[k])),
{
    if has_given {
        Ok(IdentityChoice::Given)
    } else if default_exists[0] {
        Ok(IdentityChoice::Default(0))
    } else if default_exists[1] {
        Ok(IdentityChoice::Default(1))
    } else if default_exists[2] {
        Ok(IdentityChoice::Default(2))
    } else if default_exists[3] {
        Ok(IdentityChoice::Default(3))
    } else {
        Err(FleetError::CredentialResolution)
    }
}

} // verus!
