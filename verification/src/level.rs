//! A security level: one KeyMint device, and the rules under which it serves the key store.

use vstd::prelude::*;
use crate::types::{
    AppUid, Domain, Error, ErrorCode, KeyDescriptor, SecurityLevel, Tag, Uuid,
};

verus! {

/// What a KeyMint device says of itself.
#[derive(Clone, Copy, Debug, PartialEq, Eq)]
pub struct KeyMintHardwareInfo {
    /// The version of the device's interface, a hundred for each major version.
    pub version_number: i32,
    pub timestamp_token_required: bool,
}

/// What the platform fixes for every security level.
#[derive(Clone, Debug, PartialEq, Eq)]
pub struct PlatformRules {
    /// The end of validity, in milliseconds, of a certificate that does not expire.
    pub undefined_not_after: i64,
    /// The status by which the attestation application id service reports that it failed.
    pub aaid_failed_status: u32,
    /// The tags that ask for the attestation of a device identifier.
    pub device_id_tags: Vec<Tag>,
    /// The tags that ask for the attestation of an IMEI.
    pub imei_tags: Vec<Tag>,
}

/// A security level of the key store.
#[derive(Clone, Debug, PartialEq, Eq)]
pub struct KeystoreSecurityLevel {
    pub security_level: SecurityLevel,
    pub hw_info: KeyMintHardwareInfo,
    pub km_uuid: Uuid,
    pub rules: PlatformRules,
}

/// A security level, and how it is to be offered to callers.
#[derive(Clone, Debug, PartialEq, Eq)]
pub struct NativeBinder {
    pub level: KeystoreSecurityLevel,
    /// Whether calls are to carry the security context of the caller, which the checks of key
    /// permissions need.
    pub set_requesting_sid: bool,
}

impl KeystoreSecurityLevel {
    /// Creates a security level for the device that was found for it, to be offered with the
    /// security context of the caller. Where no device was found, that error is the answer.
    pub fn new_native_binder(
        security_level: SecurityLevel,
        rules: PlatformRules,
        device: Result<(KeyMintHardwareInfo, Uuid), Error>,
    ) -> (r: Result<(NativeBinder, Uuid), Error>)
        ensures
            match device {
                Ok((hw_info, km_uuid)) => r == Ok::<_, Error>(
                    (
                        NativeBinder {
                            level: KeystoreSecurityLevel {
                                security_level,
                                hw_info,
                                km_uuid,
                                rules,
                            },
                            set_requesting_sid: true,
                        },
                        km_uuid,
                    ),
                ),
                Err(e) => r == Err::<(NativeBinder, Uuid), _>(e),
            },
    {
        match device {
            Ok((hw_info, km_uuid)) => Ok(
                (
                    NativeBinder {
                        level: KeystoreSecurityLevel { security_level, hw_info, km_uuid, rules },
                        set_requesting_sid: true,
                    },
                    km_uuid,
                ),
            ),
            Err(e) => Err(e),
        }
    }
}

/// The key that a caller means: a key of an app is one of the caller's own, whatever uid the
/// descriptor names.
pub open spec fn bound_to(key: KeyDescriptor, uid: AppUid) -> KeyDescriptor {
    if key.domain == Domain::App {
        KeyDescriptor { domain: Domain::App, nspace: uid.0, alias: key.alias, blob: None }
    } else {
        key
    }
}

/// The descriptor can name a new key: unless the key goes back to the caller as a blob, it has
/// an alias.
pub open spec fn names_new_key(key: KeyDescriptor) -> bool {
    key.domain == Domain::Blob || key.alias is Some
}

/// A key of an app is named by its alias alone, among the keys of its caller: neither the uid nor
/// the blob of the descriptor matters. Any other key is named as it is. A name needs an alias,
/// unless the key goes back as a blob.
pub proof fn law_names_of_new_keys(key: KeyDescriptor, other: KeyDescriptor, uid: AppUid)
    ensures
        key.domain != Domain::App ==> bound_to(key, uid) == key,
        key.domain == Domain::App ==> {
            &&& bound_to(key, uid).domain == Domain::App
            &&& bound_to(key, uid).nspace == uid.0
            &&& bound_to(key, uid).alias == key.alias
            &&& bound_to(key, uid).blob is None
        },
        key.domain == Domain::App && other.domain == Domain::App && key.alias == other.alias
            ==> bound_to(key, uid) == bound_to(other, uid),
        names_new_key(key) <==> !(key.domain != Domain::Blob && key.alias is None),
{
}

/// The descriptor of a new key as its caller means it. Without an alias, where one is needed,
/// the argument is invalid.
pub fn new_key_descriptor(key: KeyDescriptor, uid: AppUid) -> (r: Result<KeyDescriptor, Error>)
    ensures
        r == (if names_new_key(key) {
            Ok(bound_to(key, uid))
        } else {
            Err(Error::Km(ErrorCode::InvalidArgument))
        }),
{
    if key.domain != Domain::Blob && key.alias.is_none() {
        return Err(Error::Km(ErrorCode::InvalidArgument));
    }
    if key.domain == Domain::App {
        Ok(KeyDescriptor { domain: Domain::App, nspace: uid.0, alias: key.alias, blob: None })
    } else {
        Ok(key)
    }
}

} // verus!
