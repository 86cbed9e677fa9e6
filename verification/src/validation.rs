use vstd::prelude::*;

use crate::storage::Storage;
use crate::types::{Address, Error};

verus! {

/// Role checks the lifecycle engine runs before privileged mutations.
pub struct Validation;

/// What `require_admin` returns: `NotInitialized` before any
/// administrator exists, `Unauthorized` for any caller but the
/// administrator.
pub open spec fn require_admin_spec(store: Storage, caller: Address) -> Result<(), Error> {
    match store.admin {
        None => Err(Error::NotInitialized),
        Some(a) => if caller == a {
            Ok(())
        } else {
            Err(Error::Unauthorized)
        },
    }
}

/// What `require_issuer` returns: `Unauthorized` unless the caller is a
/// currently authorized issuer.
pub open spec fn require_issuer_spec(store: Storage, caller: Address) -> Result<(), Error> {
    if store.spec_is_issuer(caller) {
        Ok(())
    } else {
        Err(Error::Unauthorized)
    }
}

impl Validation {
    /// Verify that the caller is the administrator.
    pub fn require_admin(store: &Storage, caller: &Address) -> (r: Result<(), Error>)
        ensures
            r == require_admin_spec(*store, *caller),
    {
        let admin = match store.get_admin() {
            Ok(a) => a,
            Err(e) => { return Err(e); },
        };
        if *caller != admin {
            return Err(Error::Unauthorized);
        }
        Ok(())
    }

    /// Verify that the caller is a currently authorized issuer.
    pub fn require_issuer(store: &Storage, caller: &Address) -> (r: Result<(), Error>)
        ensures
            r == require_issuer_spec(*store, *caller),
    {
        if !store.is_issuer(caller) {
            return Err(Error::Unauthorized);
        }
        Ok(())
    }
}

} // verus!
