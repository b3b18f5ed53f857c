//! The import of a key from material that another key of the store unwraps.

use vstd::prelude::*;
use crate::admission::Admission;
use crate::level::KeystoreSecurityLevel;
use crate::load::Load;
use crate::params::{secure_id, secure_id_of};
use crate::request::{LoadBits, Outcome, Reply, Request};
use crate::store::StoreNewKey;
use crate::types::{
    AppUid, AuthenticatorSpec, AuthenticatorType, BlobMetaData, Caller, Domain, Error, ErrorCode,
    KeyDescriptor, KeyMetadata, KeyParameter, ResponseCode,
};
use crate::upgrade::{Run, Target, Upgrade, Work};

verus! {

/// The length of the masking key that is used where none is given, and which masks nothing.
pub const MASKING_KEY_LEN: usize = 32;

/// What the caller asked for.
pub struct WrappedRequest {
    pub caller: Caller,
    /// The new key, as the caller means it.
    pub key: KeyDescriptor,
    pub wrapping_key: KeyDescriptor,
    pub wrapped_data: Vec<u8>,
    pub masking_key: Vec<u8>,
    pub params: Vec<KeyParameter>,
    pub password_sid: i64,
    pub fingerprint_sid: i64,
}

/// The import of a wrapped key.
pub enum ImportWrappedKey {
    /// May the caller have a new key of that name?
    Admitting(WrappedRequest, Admission),
    /// The wrapping key comes from the database.
    Loading(WrappedRequest, Load),
    /// The blob of the wrapping key in the clear.
    Unwrapping {
        request: WrappedRequest,
        key_id: i64,
        blob: Vec<u8>,
        blob_metadata: BlobMetaData,
    },
    /// The device takes the material.
    Importing(WrappedRequest, Upgrade),
    /// The new key is stored.
    Storing(StoreNewKey),
    Done(Result<KeyMetadata, Error>),
}

/// The descriptor can name a new key and carry its wrapped material.
pub open spec fn carries_wrapped_key(key: KeyDescriptor) -> bool {
    &&& key.domain == Domain::App || key.domain == Domain::SeLinux
    &&& key.blob is Some
    &&& key.alias is Some
}

/// The new key that a descriptor with wrapped material names: that of an app is one of the
/// caller's own, and the material is no part of the name.
pub open spec fn unwrapped_key(key: KeyDescriptor, uid: AppUid) -> KeyDescriptor {
    KeyDescriptor {
        nspace: if key.domain == Domain::App {
            uid.0
        } else {
            key.nspace
        },
        blob: None,
        ..key
    }
}

/// The masking key: the one that was given, or else zeroes.
pub open spec fn masking_key_of(given: Option<Vec<u8>>) -> Seq<u8> {
    match given {
        Some(masking_key) => masking_key@,
        None => Seq::new(MASKING_KEY_LEN as nat, |i: int| 0u8),
    }
}

impl WrappedRequest {
    /// This is the request for these arguments.
    pub open spec fn is_for(
        self,
        caller: Caller,
        key: KeyDescriptor,
        wrapping_key: KeyDescriptor,
        masking_key: Option<Vec<u8>>,
        params: Vec<KeyParameter>,
        authenticators: Seq<AuthenticatorSpec>,
    ) -> bool {
        &&& self.caller == caller
        &&& self.key == unwrapped_key(key, caller.uid)
        &&& self.wrapping_key == wrapping_key
        &&& Some(self.wrapped_data) == key.blob
        &&& self.masking_key@ == masking_key_of(masking_key)
        &&& self.params == params
        &&& self.password_sid == secure_id(authenticators, AuthenticatorType::Password)
        &&& self.fingerprint_sid == secure_id(authenticators, AuthenticatorType::Fingerprint)
    }

    /// The work that the device is to do.
    pub open spec fn work<'a>(&'a self) -> Work<'a> {
        Work::ImportWrapped {
            wrapped_data: &self.wrapped_data,
            masking_key: &self.masking_key,
            params: &self.params,
            password_sid: self.password_sid,
            fingerprint_sid: self.fingerprint_sid,
        }
    }

    fn device_work<'a>(&'a self) -> (r: Work<'a>)
        ensures
            r == self.work(),
    {
        Work::ImportWrapped {
            wrapped_data: &self.wrapped_data,
            masking_key: &self.masking_key,
            params: &self.params,
            password_sid: self.password_sid,
            fingerprint_sid: self.fingerprint_sid,
        }
    }
}

/// The run of the import is over.
pub open spec fn created_or_failed(run: Upgrade) -> bool {
    match run {
        Upgrade::Done(Ok((Outcome::Created(_), _))) => true,
        Upgrade::Done(Err(_)) => true,
        _ => false,
    }
}

impl ImportWrappedKey {
    /// The import stands at its start. A wrapping key cannot be one that its caller manages
    /// itself.
    pub open spec fn starts(
        self,
        caller: Caller,
        key: KeyDescriptor,
        wrapping_key: KeyDescriptor,
        masking_key: Option<Vec<u8>>,
        params: Vec<KeyParameter>,
        authenticators: Seq<AuthenticatorSpec>,
    ) -> bool {
        if carries_wrapped_key(key) && wrapping_key.domain != Domain::Blob {
            &&& self matches ImportWrappedKey::Admitting(request, admission)
            &&& request.is_for(caller, key, wrapping_key, masking_key, params, authenticators)
            &&& admission == Admission::of(request.key)
        } else {
            self == ImportWrappedKey::Done(Err(Error::Km(ErrorCode::InvalidArgument)))
        }
    }

    /// What the import waits for. The legacy store is looked up under the name of the new key.
    pub open spec fn asks<'a>(&'a self, level: &KeystoreSecurityLevel) -> Request<'a> {
        match self {
            ImportWrappedKey::Admitting(request, admission) => admission.asks(&request.key),
            ImportWrappedKey::Loading(request, load) => load.asks(
                &request.key,
                &request.wrapping_key,
                request.caller,
                LoadBits::Km,
            ),
            ImportWrappedKey::Unwrapping { blob, blob_metadata, .. } => {
                Request::UnwrapKeyIfRequired { blob_metadata: *blob_metadata, blob }
            },
            ImportWrappedKey::Importing(request, run) => run.asks(level, request.work()),
            ImportWrappedKey::Storing(store) => store.asks(level),
            ImportWrappedKey::Done(_) => Request::Nothing,
        }
    }

    /// The import stands at `next` after a reply.
    pub open spec fn goes_to(
        self,
        level: KeystoreSecurityLevel,
        reply: Reply,
        next: ImportWrappedKey,
    ) -> bool {
        match self {
            ImportWrappedKey::Admitting(request, admission) => next == match admission.after(
                reply,
            ) {
                Admission::Done(Ok(())) => ImportWrappedKey::Loading(request, Load::Loading),
                Admission::Done(Err(e)) => ImportWrappedKey::Done(Err(e)),
                admission => ImportWrappedKey::Admitting(request, admission),
            },
            ImportWrappedKey::Loading(request, load) => next == match (load, reply) {
                (Load::Loading, Reply::Loaded(Ok(loaded))) => match loaded.blob_info {
                    Some((blob, blob_metadata)) => ImportWrappedKey::Unwrapping {
                        request,
                        key_id: loaded.key_id,
                        blob,
                        blob_metadata,
                    },
                    None => ImportWrappedKey::Done(Err(Error::Rc(ResponseCode::SystemError))),
                },
                (Load::Loading, Reply::Loaded(Err(e))) => ImportWrappedKey::Done(Err(e)),
                _ => ImportWrappedKey::Loading(request, load.after(false, reply)),
            },
            ImportWrappedKey::Unwrapping { request, key_id, blob_metadata, .. } => next
                == match reply {
                Reply::Unwrapped(Ok(key_blob)) => ImportWrappedKey::Importing(
                    request,
                    Upgrade::Running(
                        Run {
                            key_blob,
                            target: Target::Stored {
                                key_id: Some(key_id),
                                km_uuid: blob_metadata.km_uuid,
                            },
                        },
                    ),
                ),
                Reply::Unwrapped(Err(e)) => ImportWrappedKey::Done(Err(e)),
                _ => self,
            },
            ImportWrappedKey::Importing(request, run) => match next {
                ImportWrappedKey::Storing(store) => exists|done: (Outcome, Option<Vec<u8>>)|
                    {
                        &&& done.0 is Created
                        &&& #[trigger] run.goes_to(
                            level,
                            request.work(),
                            reply,
                            Upgrade::Done(Ok(done)),
                        )
                        &&& store.starts(request.key, done.0->Created_0, request.caller.user, None)
                    },
                ImportWrappedKey::Done(Err(e)) => run.goes_to(
                    level,
                    request.work(),
                    reply,
                    Upgrade::Done(Err(e)),
                ),
                ImportWrappedKey::Importing(r, again) => {
                    &&& r == request
                    &&& !created_or_failed(again)
                    &&& run.goes_to(level, request.work(), reply, again)
                },
                _ => false,
            },
            ImportWrappedKey::Storing(store) => match next {
                ImportWrappedKey::Done(r) => store.goes_to(level, reply, StoreNewKey::Done(r)),
                ImportWrappedKey::Storing(s) => !(s is Done) && store.goes_to(level, reply, s),
                _ => false,
            },
            ImportWrappedKey::Done(_) => next == self,
        }
    }

    /// What the import waits for.
    pub fn pending<'a>(&'a self, level: &KeystoreSecurityLevel) -> (r: Request<'a>)
        ensures
            r == self.asks(level),
    {
        match self {
            ImportWrappedKey::Admitting(request, admission) => admission.pending(&request.key),
            ImportWrappedKey::Loading(request, load) => load.pending(
                &request.key,
                &request.wrapping_key,
                request.caller,
                LoadBits::Km,
            ),
            ImportWrappedKey::Unwrapping { blob, blob_metadata, .. } => {
                Request::UnwrapKeyIfRequired { blob_metadata: *blob_metadata, blob }
            },
            ImportWrappedKey::Importing(request, run) => run.pending(level, request.device_work()),
            ImportWrappedKey::Storing(store) => store.pending(level),
            ImportWrappedKey::Done(_) => Request::Nothing,
        }
    }

    /// Goes on from a reply.
    pub fn resume(self, level: &KeystoreSecurityLevel, reply: Reply) -> (next: ImportWrappedKey)
        ensures
            self.goes_to(*level, reply, next),
    {
        match self {
            ImportWrappedKey::Admitting(request, admission) => match admission.resume(&reply) {
                Admission::Done(Ok(())) => ImportWrappedKey::Loading(request, Load::Loading),
                Admission::Done(Err(e)) => ImportWrappedKey::Done(Err(e)),
                admission => ImportWrappedKey::Admitting(request, admission),
            },
            ImportWrappedKey::Loading(request, load) => match (load, reply) {
                (Load::Loading, Reply::Loaded(Ok(loaded))) => match loaded.blob_info {
                    Some((blob, blob_metadata)) => ImportWrappedKey::Unwrapping {
                        request,
                        key_id: loaded.key_id,
                        blob,
                        blob_metadata,
                    },
                    None => ImportWrappedKey::Done(Err(Error::sys())),
                },
                (Load::Loading, Reply::Loaded(Err(e))) => ImportWrappedKey::Done(Err(e)),
                (load, reply) => ImportWrappedKey::Loading(request, load.resume(false, reply)),
            },
            ImportWrappedKey::Unwrapping { request, key_id, blob, blob_metadata } => match reply {
                Reply::Unwrapped(Ok(key_blob)) => ImportWrappedKey::Importing(
                    request,
                    level.upgrade_keyblob_if_required_with(
                        Some(key_id),
                        key_blob,
                        blob_metadata.km_uuid,
                    ),
                ),
                Reply::Unwrapped(Err(e)) => ImportWrappedKey::Done(Err(e)),
                _ => ImportWrappedKey::Unwrapping { request, key_id, blob, blob_metadata },
            },
            ImportWrappedKey::Importing(request, run) => {
                match run.resume(level, request.device_work(), reply) {
                    Upgrade::Done(Ok((Outcome::Created(created), upgraded_blob))) => {
                        let ghost done = (Outcome::Created(created), upgraded_blob);
                        let store = level.store_new_key(
                            request.key,
                            created,
                            request.caller.user,
                            None,
                        );
                        assert(run.goes_to(*level, request.work(), reply, Upgrade::Done(Ok(done))));
                        ImportWrappedKey::Storing(store)
                    },
                    Upgrade::Done(Err(e)) => ImportWrappedKey::Done(Err(e)),
                    run => ImportWrappedKey::Importing(request, run),
                }
            },
            ImportWrappedKey::Storing(store) => match store.resume(level, reply) {
                StoreNewKey::Done(r) => ImportWrappedKey::Done(r),
                store => ImportWrappedKey::Storing(store),
            },
            ImportWrappedKey::Done(r) => ImportWrappedKey::Done(r),
        }
    }
}

/// Thirty-two zeroes.
fn zero_masking_key() -> (r: Vec<u8>)
    ensures
        r@ == masking_key_of(None),
{
    let zeroes: Vec<u8> = vec![0u8; MASKING_KEY_LEN];
    assert(zeroes@ =~= masking_key_of(None));
    zeroes
}

impl KeystoreSecurityLevel {
    /// Starts the import of a wrapped key.
    pub fn import_wrapped_key(
        &self,
        caller: Caller,
        key: KeyDescriptor,
        wrapping_key: KeyDescriptor,
        masking_key: Option<Vec<u8>>,
        params: Vec<KeyParameter>,
        authenticators: &[AuthenticatorSpec],
    ) -> (r: ImportWrappedKey)
        ensures
            r.starts(caller, key, wrapping_key, masking_key, params, authenticators@),
    {
        if key.domain != Domain::App && key.domain != Domain::SeLinux {
            return ImportWrappedKey::Done(Err(Error::Km(ErrorCode::InvalidArgument)));
        }
        let (wrapped_data, alias) = match (key.blob, key.alias) {
            (Some(wrapped_data), Some(alias)) => (wrapped_data, alias),
            _ => return ImportWrappedKey::Done(Err(Error::Km(ErrorCode::InvalidArgument))),
        };
        if wrapping_key.domain == Domain::Blob {
            return ImportWrappedKey::Done(Err(Error::Km(ErrorCode::InvalidArgument)));
        }
        let key = KeyDescriptor {
            domain: key.domain,
            nspace: if key.domain == Domain::App {
                caller.uid.0
            } else {
                key.nspace
            },
            alias: Some(alias),
            blob: None,
        };
        let admission = Admission::start(self, &key);
        let request = WrappedRequest {
            caller,
            key,
            wrapping_key,
            wrapped_data,
            masking_key: match masking_key {
                Some(masking_key) => masking_key,
                None => zero_masking_key(),
            },
            params,
            password_sid: secure_id_of(authenticators, AuthenticatorType::Password),
            fingerprint_sid: secure_id_of(authenticators, AuthenticatorType::Fingerprint),
        };
        ImportWrappedKey::Admitting(request, admission)
    }
}

} // verus!
