//! The conversion of a storage key into one that lives until the next boot.

use vstd::prelude::*;
use crate::level::KeystoreSecurityLevel;
use crate::request::{Reply, Request};
use crate::types::{
    Domain, EphemeralStorageKeyResponse, Error, ErrorCode, KeyDescriptor, KeyPerm,
};

verus! {

/// The conversion of a storage key.
pub enum ConvertStorageKey {
    /// May the caller have it converted?
    Checking(KeyDescriptor),
    /// The device converts it.
    Converting(Vec<u8>),
    /// The device wants its blob upgraded.
    Upgrading(Vec<u8>),
    /// The device converts the upgraded blob.
    ConvertingUpgraded(Vec<u8>),
    Done(Result<EphemeralStorageKeyResponse, Error>),
}

impl ConvertStorageKey {
    /// The conversion of this key, at its start. A storage key is handed over as a blob.
    pub open spec fn of(storage_key: KeyDescriptor) -> ConvertStorageKey {
        if storage_key.domain == Domain::Blob && storage_key.blob is Some {
            ConvertStorageKey::Checking(storage_key)
        } else {
            ConvertStorageKey::Done(Err(Error::Km(ErrorCode::InvalidArgument)))
        }
    }

    /// What the conversion waits for.
    pub open spec fn asks<'a>(&'a self) -> Request<'a> {
        match self {
            ConvertStorageKey::Checking(key) => Request::CheckKeyPermission {
                perm: KeyPerm::ConvertStorageKeyToEphemeral,
                key,
                access: None,
            },
            ConvertStorageKey::Converting(key_blob) => Request::ConvertStorageKeyToEphemeral {
                key_blob,
            },
            ConvertStorageKey::Upgrading(key_blob) => Request::UpgradeKey { key_blob },
            ConvertStorageKey::ConvertingUpgraded(key_blob) => {
                Request::ConvertStorageKeyToEphemeral { key_blob }
            },
            ConvertStorageKey::Done(_) => Request::Nothing,
        }
    }

    /// Where the conversion stands after a reply. The blob is upgraded at most once, and an
    /// upgraded blob goes back to the caller with the key.
    pub open spec fn after(self, reply: Reply) -> ConvertStorageKey {
        match (self, reply) {
            (ConvertStorageKey::Checking(key), Reply::Status(Ok(()))) => match key.blob {
                Some(blob) => ConvertStorageKey::Converting(blob),
                None => ConvertStorageKey::Done(Err(Error::Km(ErrorCode::InvalidArgument))),
            },
            (ConvertStorageKey::Checking(_), Reply::Status(Err(e))) => ConvertStorageKey::Done(
                Err(e),
            ),
            (ConvertStorageKey::Converting(blob), Reply::Bytes(r)) => match r {
                Ok(ephemeral_key) => ConvertStorageKey::Done(
                    Ok(EphemeralStorageKeyResponse { ephemeral_key, upgraded_blob: None }),
                ),
                Err(Error::Km(ErrorCode::KeyRequiresUpgrade)) => ConvertStorageKey::Upgrading(blob),
                Err(e) => ConvertStorageKey::Done(Err(e)),
            },
            (ConvertStorageKey::Upgrading(_), Reply::Bytes(r)) => match r {
                Ok(upgraded_blob) => ConvertStorageKey::ConvertingUpgraded(upgraded_blob),
                Err(e) => ConvertStorageKey::Done(Err(e)),
            },
            (ConvertStorageKey::ConvertingUpgraded(upgraded_blob), Reply::Bytes(r)) => {
                ConvertStorageKey::Done(
                    match r {
                        Ok(ephemeral_key) => Ok(
                            EphemeralStorageKeyResponse {
                                ephemeral_key,
                                upgraded_blob: Some(upgraded_blob),
                            },
                        ),
                        Err(e) => Err(e),
                    },
                )
            },
            _ => self,
        }
    }

    /// What the conversion waits for.
    pub fn pending<'a>(&'a self) -> (r: Request<'a>)
        ensures
            r == self.asks(),
    {
        match self {
            ConvertStorageKey::Checking(key) => Request::CheckKeyPermission {
                perm: KeyPerm::ConvertStorageKeyToEphemeral,
                key,
                access: None,
            },
            ConvertStorageKey::Converting(key_blob) => Request::ConvertStorageKeyToEphemeral {
                key_blob,
            },
            ConvertStorageKey::Upgrading(key_blob) => Request::UpgradeKey { key_blob },
            ConvertStorageKey::ConvertingUpgraded(key_blob) => {
                Request::ConvertStorageKeyToEphemeral { key_blob }
            },
            ConvertStorageKey::Done(_) => Request::Nothing,
        }
    }

    /// Goes on from a reply.
    pub fn resume(self, reply: Reply) -> (r: ConvertStorageKey)
        ensures
            r == self.after(reply),
    {
        match self {
            ConvertStorageKey::Checking(key) => match reply {
                Reply::Status(Ok(())) => match key.blob {
                    Some(blob) => ConvertStorageKey::Converting(blob),
                    None => ConvertStorageKey::Done(Err(Error::Km(ErrorCode::InvalidArgument))),
                },
                Reply::Status(Err(e)) => ConvertStorageKey::Done(Err(e)),
                _ => ConvertStorageKey::Checking(key),
            },
            ConvertStorageKey::Converting(blob) => match reply {
                Reply::Bytes(Ok(ephemeral_key)) => ConvertStorageKey::Done(
                    Ok(EphemeralStorageKeyResponse { ephemeral_key, upgraded_blob: None }),
                ),
                Reply::Bytes(Err(Error::Km(ErrorCode::KeyRequiresUpgrade))) => {
                    ConvertStorageKey::Upgrading(blob)
                },
                Reply::Bytes(Err(e)) => ConvertStorageKey::Done(Err(e)),
                _ => ConvertStorageKey::Converting(blob),
            },
            ConvertStorageKey::Upgrading(blob) => match reply {
                Reply::Bytes(Ok(upgraded_blob)) => ConvertStorageKey::ConvertingUpgraded(
                    upgraded_blob,
                ),
                Reply::Bytes(Err(e)) => ConvertStorageKey::Done(Err(e)),
                _ => ConvertStorageKey::Upgrading(blob),
            },
            ConvertStorageKey::ConvertingUpgraded(upgraded_blob) => match reply {
                Reply::Bytes(Ok(ephemeral_key)) => ConvertStorageKey::Done(
                    Ok(
                        EphemeralStorageKeyResponse {
                            ephemeral_key,
                            upgraded_blob: Some(upgraded_blob),
                        },
                    ),
                ),
                Reply::Bytes(Err(e)) => ConvertStorageKey::Done(Err(e)),
                _ => ConvertStorageKey::ConvertingUpgraded(upgraded_blob),
            },
            ConvertStorageKey::Done(r) => ConvertStorageKey::Done(r),
        }
    }
}

impl KeystoreSecurityLevel {
    /// Starts the conversion of a storage key.
    pub fn convert_storage_key_to_ephemeral(&self, storage_key: KeyDescriptor) -> (r:
        ConvertStorageKey)
        ensures
            r == ConvertStorageKey::of(storage_key),
    {
        if storage_key.domain != Domain::Blob {
            return ConvertStorageKey::Done(Err(Error::Km(ErrorCode::InvalidArgument)));
        }
        if storage_key.blob.is_none() {
            return ConvertStorageKey::Done(Err(Error::Km(ErrorCode::InvalidArgument)));
        }
        ConvertStorageKey::Checking(storage_key)
    }
}

/// A storage key whose blob the device takes is converted, and there is no upgraded blob.
pub proof fn law_conversion_without_upgrade(storage_key: KeyDescriptor, ephemeral_key: Vec<u8>)
    requires
        storage_key.domain == Domain::Blob,
        storage_key.blob is Some,
    ensures
        ({
            let asked = ConvertStorageKey::of(storage_key).after(Reply::Status(Ok(())));
            &&& asked == ConvertStorageKey::Converting(storage_key.blob->0)
            &&& asked.after(Reply::Bytes(Ok(ephemeral_key))) == ConvertStorageKey::Done(
                Ok(EphemeralStorageKeyResponse { ephemeral_key, upgraded_blob: None }),
            )
        }),
{
}

/// A storage key whose blob the device wants upgraded is converted from the upgraded blob, which
/// goes back with it; whatever fails on the way is the answer.
pub proof fn law_conversion_with_upgrade(
    storage_key: KeyDescriptor,
    upgraded: Result<Vec<u8>, Error>,
    ephemeral: Result<Vec<u8>, Error>,
)
    requires
        storage_key.domain == Domain::Blob,
        storage_key.blob is Some,
    ensures
        ({
            let upgrading = ConvertStorageKey::of(storage_key).after(Reply::Status(Ok(()))).after(
                Reply::Bytes(Err(Error::Km(ErrorCode::KeyRequiresUpgrade))),
            );
            let converting = upgrading.after(Reply::Bytes(upgraded));
            &&& upgrading == ConvertStorageKey::Upgrading(storage_key.blob->0)
            &&& upgraded matches Ok(blob) ==> converting
                == ConvertStorageKey::ConvertingUpgraded(blob)
            &&& converting.after(Reply::Bytes(ephemeral)) == ConvertStorageKey::Done(
                match (upgraded, ephemeral) {
                    (Ok(blob), Ok(ephemeral_key)) => Ok(
                        EphemeralStorageKeyResponse { ephemeral_key, upgraded_blob: Some(blob) },
                    ),
                    (Ok(_), Err(e)) => Err(e),
                    (Err(e), _) => Err(e),
                },
            )
        }),
{
}

/// The device sees no storage key that the caller may not have converted.
pub proof fn law_refused_conversion(storage_key: KeyDescriptor, refusal: Error, reply: Reply)
    requires
        storage_key.domain == Domain::Blob,
        storage_key.blob is Some,
    ensures
        ConvertStorageKey::of(storage_key).after(Reply::Status(Err(refusal))).after(reply)
            == ConvertStorageKey::Done(Err(refusal)),
{
}

/// The caller is asked for the permission to have this very key converted, and the device for its
/// conversion from this very blob. The upgrade is of that blob too, and the second conversion is
/// from the upgraded one. Any other failure of a conversion or of the upgrade is the answer, and
/// the second conversion has no second upgrade.
pub proof fn law_conversion_asks_for_this_key(
    storage_key: KeyDescriptor,
    upgraded_blob: Vec<u8>,
    e: Error,
)
    requires
        storage_key.domain == Domain::Blob,
        storage_key.blob is Some,
    ensures
        ({
            let start = ConvertStorageKey::of(storage_key);
            let converting = start.after(Reply::Status(Ok(())));
            let upgrading = converting.after(
                Reply::Bytes(Err(Error::Km(ErrorCode::KeyRequiresUpgrade))),
            );
            let upgraded = upgrading.after(Reply::Bytes(Ok(upgraded_blob)));
            &&& start.asks() == (Request::CheckKeyPermission {
                perm: KeyPerm::ConvertStorageKeyToEphemeral,
                key: &storage_key,
                access: None,
            })
            &&& converting.asks() == (Request::ConvertStorageKeyToEphemeral {
                key_blob: &storage_key.blob->0,
            })
            &&& upgrading.asks() == (Request::UpgradeKey { key_blob: &storage_key.blob->0 })
            &&& upgraded.asks() == (Request::ConvertStorageKeyToEphemeral {
                key_blob: &upgraded_blob,
            })
            &&& e != Error::Km(ErrorCode::KeyRequiresUpgrade) ==> converting.after(
                Reply::Bytes(Err(e)),
            ) == ConvertStorageKey::Done(Err(e))
            &&& upgrading.after(Reply::Bytes(Err(e))) == ConvertStorageKey::Done(Err(e))
            &&& upgraded.after(Reply::Bytes(Err(e))) == ConvertStorageKey::Done(Err(e))
        }),
{
}

/// A reply that is not the one that was asked for changes nothing, and a result is final.
pub proof fn law_conversion_waits_for_its_answer(conversion: ConvertStorageKey, reply: Reply)
    requires
        match conversion.asks() {
            Request::CheckKeyPermission { .. } => !(reply is Status),
            Request::Nothing => true,
            _ => !(reply is Bytes),
        },
    ensures
        conversion.after(reply) == conversion,
{
}

/// What is no blob is refused before anything is asked.
pub proof fn law_only_blobs_are_converted(storage_key: KeyDescriptor, reply: Reply)
    requires
        storage_key.domain != Domain::Blob || storage_key.blob is None,
    ensures
        ConvertStorageKey::of(storage_key).after(reply) == ConvertStorageKey::Done(
            Err(Error::Km(ErrorCode::InvalidArgument)),
        ),
{
}

} // verus!
