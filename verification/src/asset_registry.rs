//! Registry of the assets the protocol supports.
//!
//! Each asset has a stored flag: registering stores `true`, deregistering
//! removes the flag, and an asset without a flag is not registered. The
//! functions here take the stored flag and decide.
use vstd::prelude::*;

use crate::borrow::BorrowError;

verus! {

/// Whether a stored flag marks the asset as registered (absent means no).
pub open spec fn spec_is_registered(stored: Option<bool>) -> bool {
    match stored {
        Some(flag) => flag,
        None => false,
    }
}

/// The registration requirement on an asset.
pub open spec fn spec_require_registered(registered: bool) -> Result<(), BorrowError> {
    if registered {
        Ok(())
    } else {
        Err(BorrowError::AssetNotSupported)
    }
}

/// The outcome of registering an asset.
pub open spec fn spec_register(registered: bool) -> Result<(), BorrowError> {
    if registered {
        Err(BorrowError::InvalidAmount)
    } else {
        Ok(())
    }
}

/// Whether the asset with the stored flag `stored` is registered.
pub fn is_registered(stored: Option<bool>) -> (registered: bool)
    ensures
        registered == spec_is_registered(stored),
{
    match stored {
        Some(flag) => flag,
        None => false,
    }
}

/// Fails with `AssetNotSupported` unless the asset is registered.
pub fn require_registered_asset(registered: bool) -> (result: Result<(), BorrowError>)
    ensures
        result == spec_require_registered(registered),
{
    if !registered {
        return Err(BorrowError::AssetNotSupported);
    }
    Ok(())
}

/// Registers an asset: fails with `InvalidAmount` when it is already
/// registered; on `Ok` the flag `true` is to be stored for it.
pub fn register(registered: bool) -> (result: Result<(), BorrowError>)
    ensures
        result == spec_register(registered),
{
    if registered {
        return Err(BorrowError::InvalidAmount);
    }
    Ok(())
}

/// The registry's life cycle. Registering succeeds exactly for an unregistered
/// asset and stores `true`; after that a second registration fails with
/// `InvalidAmount` and the registration requirement holds. Deregistering
/// removes the flag; after that the requirement fails with `AssetNotSupported`
/// and the asset can be registered again.
pub proof fn lemma_registry_life_cycle(stored: Option<bool>)
    ensures
        spec_register(spec_is_registered(stored)) is Ok <==> !spec_is_registered(stored),
        spec_register(spec_is_registered(Some(true))) == Err::<(), BorrowError>(
            BorrowError::InvalidAmount,
        ),
        spec_require_registered(spec_is_registered(Some(true))) == Ok::<(), BorrowError>(()),
        spec_require_registered(spec_is_registered(None)) == Err::<(), BorrowError>(
            BorrowError::AssetNotSupported,
        ),
        spec_register(spec_is_registered(None)) == Ok::<(), BorrowError>(()),
{
}

} // verus!
