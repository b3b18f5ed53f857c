//! Operations on a key blob that a device may want to have upgraded first.
//!
//! The run of such an operation is not in the hands of the key store: whoever runs it calls for
//! the operation on one blob or another, hands over an upgraded blob, and says when it is over.
//! What the key store does at each of these calls is here.

use vstd::prelude::*;
use crate::level::KeystoreSecurityLevel;
use crate::request::{AttestationKeyRef, Outcome, Reply, Request};
use crate::retry::GenerateRetry;
use crate::types::{
    AppUid, BlobMetaData, Device, Error, ErrorCode, Handle, KeyBlob, KeyDescriptor, KeyParameter,
    KeyPurpose, Uuid,
};

verus! {

// ---------------------------------------------------------------------------------------
// Storing an upgraded blob
// ---------------------------------------------------------------------------------------
/// The storing of a blob in place of the one that it was made from.
pub enum StoreUpgraded {
    /// How is it encrypted? Without an upgraded blob it is the old one that is encrypted anew.
    Reencrypting { key_id: i64, km_uuid: Option<Uuid>, upgraded_blob: Option<Vec<u8>> },
    Storing { key_id: i64, blob: Vec<u8>, blob_metadata: BlobMetaData },
    Done(Result<(), Error>),
}

/// What is stored beside a blob that was encrypted anew: what the encryption needs, and the
/// device, if it is known.
pub open spec fn renewed_metadata(
    metadata: Option<BlobMetaData>,
    km_uuid: Option<Uuid>,
) -> BlobMetaData {
    let fresh = match metadata {
        Some(m) => m,
        None => BlobMetaData { km_uuid: None, others: None },
    };
    match km_uuid {
        Some(uuid) => BlobMetaData { km_uuid: Some(uuid), ..fresh },
        None => fresh,
    }
}

impl StoreUpgraded {
    /// What the storing waits for, in place of `key_blob`.
    pub open spec fn asks<'a>(&'a self, key_blob: &'a KeyBlob) -> Request<'a> {
        match self {
            StoreUpgraded::Reencrypting { upgraded_blob, .. } => Request::ReencryptIfRequired {
                key_blob,
                upgraded_blob: match upgraded_blob {
                    Some(blob) => blob,
                    None => &key_blob.bytes,
                },
            },
            StoreUpgraded::Storing { key_id, blob, blob_metadata } => Request::SetKeyBlob {
                key_id: *key_id,
                blob,
                blob_metadata: *blob_metadata,
            },
            StoreUpgraded::Done(_) => Request::Nothing,
        }
    }

    /// Where the storing stands after a reply.
    pub open spec fn after(self, reply: Reply) -> StoreUpgraded {
        match (self, reply) {
            (
                StoreUpgraded::Reencrypting { key_id, km_uuid, .. },
                Reply::Reencrypted(Ok((blob, metadata))),
            ) => StoreUpgraded::Storing {
                key_id,
                blob,
                blob_metadata: renewed_metadata(metadata, km_uuid),
            },
            (StoreUpgraded::Reencrypting { .. }, Reply::Reencrypted(Err(e))) => StoreUpgraded::Done(
                Err(e),
            ),
            (StoreUpgraded::Storing { .. }, Reply::Status(r)) => StoreUpgraded::Done(r),
            _ => self,
        }
    }

    /// What the storing waits for, in place of `key_blob`.
    pub fn pending<'a>(&'a self, key_blob: &'a KeyBlob) -> (r: Request<'a>)
        ensures
            r == self.asks(key_blob),
    {
        match self {
            StoreUpgraded::Reencrypting { upgraded_blob, .. } => Request::ReencryptIfRequired {
                key_blob,
                upgraded_blob: match upgraded_blob {
                    Some(blob) => blob,
                    None => &key_blob.bytes,
                },
            },
            StoreUpgraded::Storing { key_id, blob, blob_metadata } => Request::SetKeyBlob {
                key_id: *key_id,
                blob,
                blob_metadata: *blob_metadata,
            },
            StoreUpgraded::Done(_) => Request::Nothing,
        }
    }

    /// Goes on from a reply.
    pub fn resume(self, reply: Reply) -> (r: StoreUpgraded)
        ensures
            r == self.after(reply),
    {
        match self {
            StoreUpgraded::Reencrypting { key_id, km_uuid, upgraded_blob } => match reply {
                Reply::Reencrypted(Ok((blob, metadata))) => {
                    let mut blob_metadata = match metadata {
                        Some(m) => m,
                        None => BlobMetaData { km_uuid: None, others: None },
                    };
                    if let Some(uuid) = km_uuid {
                        blob_metadata.km_uuid = Some(uuid);
                    }
                    StoreUpgraded::Storing { key_id, blob, blob_metadata }
                },
                Reply::Reencrypted(Err(e)) => StoreUpgraded::Done(Err(e)),
                _ => StoreUpgraded::Reencrypting { key_id, km_uuid, upgraded_blob },
            },
            StoreUpgraded::Storing { key_id, blob, blob_metadata } => match reply {
                Reply::Status(r) => StoreUpgraded::Done(r),
                _ => StoreUpgraded::Storing { key_id, blob, blob_metadata },
            },
            StoreUpgraded::Done(r) => StoreUpgraded::Done(r),
        }
    }
}

impl KeystoreSecurityLevel {
    /// Starts the storing of a blob for the key with this id.
    pub fn store_upgraded_keyblob(
        key_id: i64,
        km_uuid: Option<Uuid>,
        upgraded_blob: Option<Vec<u8>>,
    ) -> (r: StoreUpgraded)
        ensures
            r == (StoreUpgraded::Reencrypting { key_id, km_uuid, upgraded_blob }),
    {
        StoreUpgraded::Reencrypting { key_id, km_uuid, upgraded_blob }
    }
}

// ---------------------------------------------------------------------------------------
// The operation on a blob
// ---------------------------------------------------------------------------------------
/// The operation that is to be done on a key blob.
#[derive(Clone, Copy)]
pub enum Work<'a> {
    /// A new operation with the key, which is stored under `key_id` if it is stored at all.
    Begin {
        purpose: KeyPurpose,
        params: &'a Vec<KeyParameter>,
        auth_token: Option<Handle>,
        uid: AppUid,
        forced: bool,
        key_id: Option<i64>,
    },
    /// A new key that the caller's own key attests.
    GenerateAttested {
        device: Device,
        version: i32,
        params: &'a Vec<KeyParameter>,
        issuer_subject: &'a Vec<u8>,
    },
    /// A new key that a remotely provisioned key attests.
    GenerateProvisioned { params: &'a Vec<KeyParameter>, issuer_subject: &'a Vec<u8> },
    /// A new key that the key unwraps.
    ImportWrapped {
        wrapped_data: &'a Vec<u8>,
        masking_key: &'a Vec<u8>,
        params: &'a Vec<KeyParameter>,
        password_sid: i64,
        fingerprint_sid: i64,
    },
}

impl<'a> Work<'a> {
    /// The outcome is of the kind that this operation has.
    pub open spec fn yields(self, outcome: Outcome) -> bool {
        self is Begin <==> outcome is Begun
    }

    /// The device on which the operation runs, its interface version, and the parameters for an
    /// upgrade.
    pub open spec fn run_on(self, level: &KeystoreSecurityLevel) -> (
        Device,
        i32,
        Option<&'a Vec<KeyParameter>>,
    ) {
        match self {
            Work::Begin { params, .. } => (Device::Own, level.hw_info.version_number, Some(params)),
            Work::GenerateAttested { device, version, params, .. } => (
                device,
                version,
                Some(params),
            ),
            Work::GenerateProvisioned { .. } => (Device::Own, level.hw_info.version_number, None),
            Work::ImportWrapped { .. } => (Device::Own, level.hw_info.version_number, None),
        }
    }
}

/// One call for the operation on a blob.
pub enum Attempt {
    /// The device is at it.
    Calling(Vec<u8>),
    /// The device is at it, and may get a second try.
    Retrying(Vec<u8>, GenerateRetry),
    /// The device has no room for one more operation.
    Pruning(Vec<u8>),
    /// The blob of a stored key was found invalid: which key is it?
    Identifying(i64),
    /// The audit log is to know of it.
    Noting(KeyDescriptor),
    /// The outcome goes back to the run.
    Answer(Result<Outcome, Error>),
}

impl Attempt {
    /// The attempt at this work on a blob, at its start.
    pub open spec fn of(work: Work, blob: Vec<u8>) -> Attempt {
        if work is GenerateProvisioned {
            Attempt::Retrying(blob, GenerateRetry::First)
        } else {
            Attempt::Calling(blob)
        }
    }

    /// What the attempt waits for.
    pub open spec fn asks<'a>(&'a self, work: Work<'a>) -> Request<'a> {
        match self {
            Attempt::Calling(blob) => match work {
                Work::Begin { purpose, params, auth_token, .. } => Request::Begin {
                    purpose,
                    key_blob: blob,
                    params,
                    auth_token,
                },
                Work::GenerateAttested { device, params, issuer_subject, .. } => {
                    Request::GenerateKey {
                        device,
                        params,
                        attest_key: Some(
                            AttestationKeyRef {
                                key_blob: blob,
                                issuer_subject_name: issuer_subject,
                            },
                        ),
                    }
                },
                Work::ImportWrapped {
                    wrapped_data,
                    masking_key,
                    params,
                    password_sid,
                    fingerprint_sid,
                } => Request::ImportWrappedKey {
                    wrapped_data,
                    wrapping_key_blob: blob,
                    masking_key,
                    params,
                    password_sid,
                    fingerprint_sid,
                },
                Work::GenerateProvisioned { .. } => Request::Nothing,
            },
            Attempt::Retrying(blob, retry) => match work {
                Work::GenerateProvisioned { params, issuer_subject } => retry.asks(
                    params,
                    Some(
                        AttestationKeyRef { key_blob: blob, issuer_subject_name: issuer_subject },
                    ),
                ),
                _ => Request::Nothing,
            },
            Attempt::Pruning(_) => match work {
                Work::Begin { uid, forced, .. } => Request::PruneOperations { uid, forced },
                _ => Request::Nothing,
            },
            Attempt::Identifying(key_id) => Request::LoadKeyDescriptor { key_id: *key_id },
            Attempt::Noting(key) => Request::LogKeyIntegrityViolation { key },
            Attempt::Answer(result) => Request::ReturnOutcome(result),
        }
    }

    /// The attempt stands at `next` after a reply. An operation for which there is no room is
    /// tried again once there is; an invalid blob of a stored key is noted; and every other
    /// outcome goes back as it is.
    pub open spec fn goes_to(
        self,
        level: KeystoreSecurityLevel,
        work: Work,
        reply: Reply,
        next: Attempt,
    ) -> bool {
        match (self, work, reply) {
            (Attempt::Calling(blob), Work::Begin { key_id, .. }, Reply::Begun(r)) => next
                == match r {
                Err(Error::Km(ErrorCode::TooManyOperations)) => Attempt::Pruning(blob),
                Err(Error::Km(ErrorCode::InvalidKeyBlob)) if key_id is Some => Attempt::Identifying(
                    key_id->0,
                ),
                Ok(begun) => Attempt::Answer(Ok(Outcome::Begun(begun))),
                Err(e) => Attempt::Answer(Err(e)),
            },
            (
                Attempt::Calling(_),
                Work::GenerateAttested { .. } | Work::ImportWrapped { .. },
                Reply::Created(r),
            ) => next == Attempt::Answer(
                match r {
                    Ok(created) => Ok(Outcome::Created(created)),
                    Err(e) => Err(e),
                },
            ),
            (
                Attempt::Retrying(blob, retry),
                Work::GenerateProvisioned { params, .. },
                Reply::Created(_),
            ) => match next {
                Attempt::Answer(Ok(Outcome::Created(created))) => retry.goes_to(
                    level,
                    params@,
                    reply,
                    GenerateRetry::Done(Ok(created)),
                ),
                Attempt::Answer(Err(e)) => retry.goes_to(
                    level,
                    params@,
                    reply,
                    GenerateRetry::Done(Err(e)),
                ),
                Attempt::Retrying(b, again) => b == blob && !(again is Done) && retry.goes_to(
                    level,
                    params@,
                    reply,
                    again,
                ),
                _ => false,
            },
            (Attempt::Pruning(blob), Work::Begin { .. }, Reply::Status(r)) => next == match r {
                Ok(()) => Attempt::Calling(blob),
                Err(e) => Attempt::Answer(Err(e)),
            },
            (Attempt::Identifying(_), _, Reply::Descriptor(r)) => next == match r {
                Ok(Some(key)) => Attempt::Noting(key),
                _ => Attempt::Answer(Err(Error::Km(ErrorCode::InvalidKeyBlob))),
            },
            (Attempt::Noting(_), _, Reply::Returned) => next == Attempt::Answer(
                Err(Error::Km(ErrorCode::InvalidKeyBlob)),
            ),
            _ => next == self,
        }
    }

    fn start(work: Work, blob: Vec<u8>) -> (r: Attempt)
        ensures
            r == Attempt::of(work, blob),
    {
        match work {
            Work::GenerateProvisioned { .. } => Attempt::Retrying(blob, GenerateRetry::First),
            _ => Attempt::Calling(blob),
        }
    }

    /// What the attempt waits for.
    pub fn pending<'a>(&'a self, work: Work<'a>) -> (r: Request<'a>)
        ensures
            r == self.asks(work),
    {
        match self {
            Attempt::Calling(blob) => match work {
                Work::Begin { purpose, params, auth_token, .. } => Request::Begin {
                    purpose,
                    key_blob: blob,
                    params,
                    auth_token,
                },
                Work::GenerateAttested { device, params, issuer_subject, .. } => {
                    Request::GenerateKey {
                        device,
                        params,
                        attest_key: Some(
                            AttestationKeyRef {
                                key_blob: blob,
                                issuer_subject_name: issuer_subject,
                            },
                        ),
                    }
                },
                Work::ImportWrapped {
                    wrapped_data,
                    masking_key,
                    params,
                    password_sid,
                    fingerprint_sid,
                } => Request::ImportWrappedKey {
                    wrapped_data,
                    wrapping_key_blob: blob,
                    masking_key,
                    params,
                    password_sid,
                    fingerprint_sid,
                },
                Work::GenerateProvisioned { .. } => Request::Nothing,
            },
            Attempt::Retrying(blob, retry) => match work {
                Work::GenerateProvisioned { params, issuer_subject } => retry.pending(
                    params,
                    Some(
                        AttestationKeyRef { key_blob: blob, issuer_subject_name: issuer_subject },
                    ),
                ),
                _ => Request::Nothing,
            },
            Attempt::Pruning(_) => match work {
                Work::Begin { uid, forced, .. } => Request::PruneOperations { uid, forced },
                _ => Request::Nothing,
            },
            Attempt::Identifying(key_id) => Request::LoadKeyDescriptor { key_id: *key_id },
            Attempt::Noting(key) => Request::LogKeyIntegrityViolation { key },
            Attempt::Answer(result) => Request::ReturnOutcome(result),
        }
    }

    /// Goes on from a reply.
    pub fn resume(self, level: &KeystoreSecurityLevel, work: Work, reply: Reply) -> (next: Attempt)
        ensures
            self.goes_to(*level, work, reply, next),
    {
        match self {
            Attempt::Calling(blob) => match work {
                Work::Begin { key_id, .. } => match reply {
                    Reply::Begun(Err(Error::Km(ErrorCode::TooManyOperations))) => Attempt::Pruning(
                        blob,
                    ),
                    Reply::Begun(Err(Error::Km(ErrorCode::InvalidKeyBlob))) => match key_id {
                        Some(id) => Attempt::Identifying(id),
                        None => Attempt::Answer(Err(Error::Km(ErrorCode::InvalidKeyBlob))),
                    },
                    Reply::Begun(Ok(begun)) => Attempt::Answer(Ok(Outcome::Begun(begun))),
                    Reply::Begun(Err(e)) => Attempt::Answer(Err(e)),
                    _ => Attempt::Calling(blob),
                },
                Work::GenerateAttested { .. } | Work::ImportWrapped { .. } => match reply {
                    Reply::Created(Ok(created)) => Attempt::Answer(Ok(Outcome::Created(created))),
                    Reply::Created(Err(e)) => Attempt::Answer(Err(e)),
                    _ => Attempt::Calling(blob),
                },
                Work::GenerateProvisioned { .. } => Attempt::Calling(blob),
            },
            Attempt::Retrying(blob, retry) => match work {
                Work::GenerateProvisioned { params, .. } => match reply {
                    Reply::Created(result) => {
                        match retry.resume(level, params, Reply::Created(result)) {
                            GenerateRetry::Done(Ok(created)) => Attempt::Answer(
                                Ok(Outcome::Created(created)),
                            ),
                            GenerateRetry::Done(Err(e)) => Attempt::Answer(Err(e)),
                            again => Attempt::Retrying(blob, again),
                        }
                    },
                    _ => Attempt::Retrying(blob, retry),
                },
                _ => Attempt::Retrying(blob, retry),
            },
            Attempt::Pruning(blob) => match work {
                Work::Begin { .. } => match reply {
                    Reply::Status(Ok(())) => Attempt::Calling(blob),
                    Reply::Status(Err(e)) => Attempt::Answer(Err(e)),
                    _ => Attempt::Pruning(blob),
                },
                _ => Attempt::Pruning(blob),
            },
            Attempt::Identifying(key_id) => match reply {
                Reply::Descriptor(Ok(Some(key))) => Attempt::Noting(key),
                Reply::Descriptor(_) => Attempt::Answer(Err(Error::Km(ErrorCode::InvalidKeyBlob))),
                _ => Attempt::Identifying(key_id),
            },
            Attempt::Noting(key) => match reply {
                Reply::Returned => Attempt::Answer(Err(Error::Km(ErrorCode::InvalidKeyBlob))),
                _ => Attempt::Noting(key),
            },
            Attempt::Answer(result) => Attempt::Answer(result),
        }
    }
}

// ---------------------------------------------------------------------------------------
// The run
// ---------------------------------------------------------------------------------------
/// Where an upgraded blob goes.
pub enum Target {
    /// To the stored key with this id, if there is one that is still to be written, and under
    /// this device.
    Stored { key_id: Option<i64>, km_uuid: Option<Uuid> },
    /// To the component that provisioned the key.
    Rkpd { rpc_name: String },
}

/// The key blob of a run, and where an upgraded one goes.
pub struct Run {
    pub key_blob: KeyBlob,
    pub target: Target,
}

/// The run of an operation on a key blob.
pub enum Upgrade {
    /// Whoever runs it is at it.
    Running(Run),
    /// The operation was called for.
    Attempting(Run, Attempt),
    /// An upgraded blob is being stored.
    Keeping(Run, StoreUpgraded),
    /// An upgraded blob is being handed to the component that provisioned the key.
    KeepingRkpd(Run, Vec<u8>),
    /// What became of an upgraded blob goes back to the run.
    Kept(Run, Result<(), Error>),
    /// The operation is done, and the old blob is being encrypted anew.
    Reencrypting(KeyBlob, (Outcome, Option<Vec<u8>>), StoreUpgraded),
    Done(Result<(Outcome, Option<Vec<u8>>), Error>),
}

impl Run {
    /// The run after an upgraded blob was handed over. The id of a stored key is spent by the
    /// first one.
    pub open spec fn with_new_blob(self, upgraded_blob: Vec<u8>) -> Upgrade {
        match self.target {
            Target::Stored { key_id: Some(key_id), km_uuid } => Upgrade::Keeping(
                Run { target: Target::Stored { key_id: None, km_uuid }, ..self },
                StoreUpgraded::Reencrypting { key_id, km_uuid, upgraded_blob: Some(upgraded_blob) },
            ),
            Target::Stored { key_id: None, .. } => Upgrade::Kept(self, Ok(())),
            Target::Rkpd { .. } => Upgrade::KeepingRkpd(self, upgraded_blob),
        }
    }

    /// The run after the operation is done. Where no upgraded blob was stored, and the old one
    /// is due for it, that is encrypted anew.
    pub open spec fn with_outcome(self, done: (Outcome, Option<Vec<u8>>)) -> Upgrade {
        match self.target {
            Target::Stored { key_id: Some(key_id), km_uuid } if self.key_blob.force_reencrypt => {
                Upgrade::Reencrypting(
                    self.key_blob,
                    done,
                    StoreUpgraded::Reencrypting { key_id, km_uuid, upgraded_blob: None },
                )
            },
            _ => Upgrade::Done(Ok(done)),
        }
    }
}

impl Upgrade {
    /// What the run waits for.
    pub open spec fn asks<'a>(&'a self, level: &KeystoreSecurityLevel, work: Work<'a>) -> Request<
        'a,
    > {
        match self {
            Upgrade::Running(run) => {
                let (device, version, params) = work.run_on(level);
                Request::RunWithUpgrade { device, version, key_blob: &run.key_blob.bytes, params }
            },
            Upgrade::Attempting(_, attempt) => attempt.asks(work),
            Upgrade::Keeping(run, store) => store.asks(&run.key_blob),
            Upgrade::KeepingRkpd(run, upgraded_blob) => match &run.target {
                Target::Rkpd { rpc_name } => Request::StoreRkpdAttestationKey {
                    rpc_name,
                    key_blob: &run.key_blob.bytes,
                    upgraded_blob,
                },
                Target::Stored { .. } => Request::Nothing,
            },
            Upgrade::Kept(_, r) => Request::ReturnStatus(*r),
            Upgrade::Reencrypting(key_blob, _, store) => store.asks(key_blob),
            Upgrade::Done(_) => Request::Nothing,
        }
    }

    /// The run stands at `next` after a reply.
    pub open spec fn goes_to(
        self,
        level: KeystoreSecurityLevel,
        work: Work,
        reply: Reply,
        next: Upgrade,
    ) -> bool {
        match self {
            Upgrade::Running(run) => next == match reply {
                Reply::OperationCalled(blob) => Upgrade::Attempting(run, Attempt::of(work, blob)),
                Reply::NewBlob(upgraded_blob) => run.with_new_blob(upgraded_blob),
                Reply::UpgradeDone(Ok(done)) if work.yields(done.0) => run.with_outcome(done),
                Reply::UpgradeDone(Err(e)) => Upgrade::Done(Err(e)),
                _ => self,
            },
            Upgrade::Attempting(run, attempt) => if attempt is Answer {
                next == if reply is Returned {
                    Upgrade::Running(run)
                } else {
                    self
                }
            } else {
                &&& next matches Upgrade::Attempting(r, a)
                &&& r == run
                &&& attempt.goes_to(level, work, reply, a)
            },
            Upgrade::Keeping(run, store) => next == match store.after(reply) {
                StoreUpgraded::Done(r) => Upgrade::Kept(run, r),
                store => Upgrade::Keeping(run, store),
            },
            Upgrade::KeepingRkpd(run, _) => next == match reply {
                Reply::Status(r) => Upgrade::Kept(run, r),
                _ => self,
            },
            Upgrade::Kept(run, _) => next == if reply is Returned {
                Upgrade::Running(run)
            } else {
                self
            },
            Upgrade::Reencrypting(key_blob, done, store) => next == match store.after(reply) {
                StoreUpgraded::Done(Ok(())) => Upgrade::Done(Ok(done)),
                StoreUpgraded::Done(Err(e)) => Upgrade::Done(Err(e)),
                store => Upgrade::Reencrypting(key_blob, done, store),
            },
            Upgrade::Done(_) => next == self,
        }
    }

    /// What the run waits for.
    pub fn pending<'a>(&'a self, level: &KeystoreSecurityLevel, work: Work<'a>) -> (r: Request<'a>)
        ensures
            r == self.asks(level, work),
    {
        match self {
            Upgrade::Running(run) => {
                let version: i32 = level.hw_info.version_number;
                let key_blob = &run.key_blob.bytes;
                match work {
                    Work::Begin { params, .. } => Request::RunWithUpgrade {
                        device: Device::Own,
                        version,
                        key_blob,
                        params: Some(params),
                    },
                    Work::GenerateAttested { device, version, params, .. } => {
                        Request::RunWithUpgrade { device, version, key_blob, params: Some(params) }
                    },
                    Work::GenerateProvisioned { .. } | Work::ImportWrapped { .. } => {
                        Request::RunWithUpgrade {
                            device: Device::Own,
                            version,
                            key_blob,
                            params: None,
                        }
                    },
                }
            },
            Upgrade::Attempting(_, attempt) => attempt.pending(work),
            Upgrade::Keeping(run, store) => store.pending(&run.key_blob),
            Upgrade::KeepingRkpd(run, upgraded_blob) => match &run.target {
                Target::Rkpd { rpc_name } => Request::StoreRkpdAttestationKey {
                    rpc_name,
                    key_blob: &run.key_blob.bytes,
                    upgraded_blob,
                },
                Target::Stored { .. } => Request::Nothing,
            },
            Upgrade::Kept(_, r) => Request::ReturnStatus(*r),
            Upgrade::Reencrypting(key_blob, _, store) => store.pending(key_blob),
            Upgrade::Done(_) => Request::Nothing,
        }
    }

    /// Goes on from a reply.
    pub fn resume(self, level: &KeystoreSecurityLevel, work: Work, reply: Reply) -> (next: Upgrade)
        ensures
            self.goes_to(*level, work, reply, next),
    {
        match self {
            Upgrade::Running(run) => match reply {
                Reply::OperationCalled(blob) => Upgrade::Attempting(run, Attempt::start(work, blob)),
                Reply::NewBlob(upgraded_blob) => run.take_new_blob(upgraded_blob),
                Reply::UpgradeDone(Ok((Outcome::Begun(begun), upgraded))) => match work {
                    Work::Begin { .. } => run.finish((Outcome::Begun(begun), upgraded)),
                    _ => Upgrade::Running(run),
                },
                Reply::UpgradeDone(Ok((Outcome::Created(created), upgraded))) => match work {
                    Work::Begin { .. } => Upgrade::Running(run),
                    _ => run.finish((Outcome::Created(created), upgraded)),
                },
                Reply::UpgradeDone(Err(e)) => Upgrade::Done(Err(e)),
                _ => Upgrade::Running(run),
            },
            Upgrade::Attempting(run, attempt) => match attempt {
                Attempt::Answer(result) => match reply {
                    Reply::Returned => Upgrade::Running(run),
                    _ => Upgrade::Attempting(run, Attempt::Answer(result)),
                },
                attempt => Upgrade::Attempting(run, attempt.resume(level, work, reply)),
            },
            Upgrade::Keeping(run, store) => match store.resume(reply) {
                StoreUpgraded::Done(r) => Upgrade::Kept(run, r),
                store => Upgrade::Keeping(run, store),
            },
            Upgrade::KeepingRkpd(run, upgraded_blob) => match reply {
                Reply::Status(r) => Upgrade::Kept(run, r),
                _ => Upgrade::KeepingRkpd(run, upgraded_blob),
            },
            Upgrade::Kept(run, r) => match reply {
                Reply::Returned => Upgrade::Running(run),
                _ => Upgrade::Kept(run, r),
            },
            Upgrade::Reencrypting(key_blob, done, store) => match store.resume(reply) {
                StoreUpgraded::Done(Ok(())) => Upgrade::Done(Ok(done)),
                StoreUpgraded::Done(Err(e)) => Upgrade::Done(Err(e)),
                store => Upgrade::Reencrypting(key_blob, done, store),
            },
            Upgrade::Done(r) => Upgrade::Done(r),
        }
    }
}

impl Run {
    fn take_new_blob(self, upgraded_blob: Vec<u8>) -> (r: Upgrade)
        ensures
            r == self.with_new_blob(upgraded_blob),
    {
        let key_blob = self.key_blob;
        match self.target {
            Target::Stored { key_id: Some(key_id), km_uuid } => Upgrade::Keeping(
                Run { key_blob, target: Target::Stored { key_id: None, km_uuid } },
                KeystoreSecurityLevel::store_upgraded_keyblob(
                    key_id,
                    km_uuid,
                    Some(upgraded_blob),
                ),
            ),
            Target::Stored { key_id: None, km_uuid } => Upgrade::Kept(
                Run { key_blob, target: Target::Stored { key_id: None, km_uuid } },
                Ok(()),
            ),
            Target::Rkpd { rpc_name } => Upgrade::KeepingRkpd(
                Run { key_blob, target: Target::Rkpd { rpc_name } },
                upgraded_blob,
            ),
        }
    }

    fn finish(self, done: (Outcome, Option<Vec<u8>>)) -> (r: Upgrade)
        ensures
            r == self.with_outcome(done),
    {
        match self.target {
            Target::Stored { key_id: Some(key_id), km_uuid } => if self.key_blob.force_reencrypt {
                Upgrade::Reencrypting(
                    self.key_blob,
                    done,
                    KeystoreSecurityLevel::store_upgraded_keyblob(key_id, km_uuid, None),
                )
            } else {
                Upgrade::Done(Ok(done))
            },
            _ => Upgrade::Done(Ok(done)),
        }
    }
}

impl KeystoreSecurityLevel {
    /// Starts the run of an operation on a key blob. An upgraded blob is stored for the key
    /// with this id, under this device, if an id is given.
    pub fn upgrade_keyblob_if_required_with(
        &self,
        key_id: Option<i64>,
        key_blob: KeyBlob,
        km_uuid: Option<Uuid>,
    ) -> (r: Upgrade)
        ensures
            r == Upgrade::Running(Run { key_blob, target: Target::Stored { key_id, km_uuid } }),
    {
        Upgrade::Running(Run { key_blob, target: Target::Stored { key_id, km_uuid } })
    }

    /// Starts the run of an operation on a key blob that was provisioned remotely. An upgraded
    /// blob goes to the component that provisioned it.
    pub fn upgrade_rkpd_keyblob_if_required_with(
        &self,
        rpc_name: String,
        key_blob: Vec<u8>,
    ) -> (r: Upgrade)
        ensures
            r == Upgrade::Running(
                Run { key_blob: plain_blob(key_blob), target: Target::Rkpd { rpc_name } },
            ),
    {
        Upgrade::Running(
            Run {
                key_blob: KeyBlob { bytes: key_blob, force_reencrypt: false, sealed_with: None },
                target: Target::Rkpd { rpc_name },
            },
        )
    }
}

/// A key blob that is not stored under encryption.
pub open spec fn plain_blob(bytes: Vec<u8>) -> KeyBlob {
    KeyBlob { bytes, force_reencrypt: false, sealed_with: None }
}

// ---------------------------------------------------------------------------------------
// Laws
// ---------------------------------------------------------------------------------------
impl Upgrade {
    /// The run went through these stages, with these replies between them.
    pub open spec fn run(
        level: KeystoreSecurityLevel,
        work: Work,
        stages: Seq<Upgrade>,
        replies: Seq<Reply>,
    ) -> bool {
        &&& stages.len() == replies.len() + 1
        &&& forall|i: int|
            #![trigger replies[i]]
            0 <= i < replies.len() ==> stages[i].goes_to(level, work, replies[i], stages[i + 1])
    }

    /// Whatever outcome there is so far is of the kind that the operation has.
    pub open spec fn has_kind(self, work: Work) -> bool {
        match self {
            Upgrade::Attempting(_, Attempt::Answer(Ok(outcome))) => work.yields(outcome),
            Upgrade::Reencrypting(_, done, _) => work.yields(done.0),
            Upgrade::Done(Ok(done)) => work.yields(done.0),
            _ => true,
        }
    }

    /// The id of the stored key is still at hand for a blob.
    pub open spec fn holds_id(self) -> bool {
        match self {
            Upgrade::Running(run)
            | Upgrade::Attempting(run, _)
            | Upgrade::Keeping(run, _)
            | Upgrade::KeepingRkpd(run, _)
            | Upgrade::Kept(run, _) => run.target matches Target::Stored { key_id, .. }
                && key_id is Some,
            _ => false,
        }
    }

    /// A blob is on its way to the stored key.
    pub open spec fn is_writing(self) -> bool {
        match self {
            Upgrade::Keeping(_, store) | Upgrade::Reencrypting(_, _, store) => !(store is Done),
            _ => false,
        }
    }

    /// The number of blobs that can still be written for the stored key.
    pub open spec fn writes_left(self) -> int {
        (if self.holds_id() {
            1int
        } else {
            0
        }) + (if self.is_writing() {
            1int
        } else {
            0
        })
    }

    /// A blob is only ever written for the key with this id.
    pub open spec fn writes_only(self, id: Option<i64>) -> bool {
        match self {
            Upgrade::Running(run)
            | Upgrade::Attempting(run, _)
            | Upgrade::KeepingRkpd(run, _)
            | Upgrade::Kept(run, _) => run.writes_only(id),
            Upgrade::Keeping(run, store) => run.writes_only(id) && store.writes_only(id),
            Upgrade::Reencrypting(_, _, store) => store.writes_only(id),
            Upgrade::Done(_) => true,
        }
    }
}

impl Run {
    /// A blob is only ever written for the key with this id.
    pub open spec fn writes_only(self, id: Option<i64>) -> bool {
        self.target matches Target::Stored { key_id, .. } ==> key_id is None || key_id == id
    }
}

impl StoreUpgraded {
    /// A blob is only ever written for the key with this id.
    pub open spec fn writes_only(self, id: Option<i64>) -> bool {
        match self {
            StoreUpgraded::Reencrypting { key_id, .. } => id == Some(key_id),
            StoreUpgraded::Storing { key_id, .. } => id == Some(key_id),
            StoreUpgraded::Done(_) => true,
        }
    }
}

/// The number of blobs that were written for a stored key in the first `n` steps.
pub open spec fn blobs_written(
    level: KeystoreSecurityLevel,
    work: Work,
    stages: Seq<Upgrade>,
    replies: Seq<Reply>,
    n: int,
) -> int
    decreases n,
{
    if n <= 0 {
        0
    } else {
        blobs_written(level, work, stages, replies, n - 1) + (if stages[n - 1].asks(
            &level,
            work,
        ) is SetKeyBlob && replies[n - 1] is Status {
            1int
        } else {
            0
        })
    }
}

/// For a stored key, at most one blob is written in a run: the upgraded one, or the old one
/// under new encryption; and none is written where no id was given.
pub proof fn law_at_most_one_blob_is_written(
    level: KeystoreSecurityLevel,
    work: Work,
    stages: Seq<Upgrade>,
    replies: Seq<Reply>,
    n: int,
)
    requires
        Upgrade::run(level, work, stages, replies),
        stages[0] is Running,
        0 <= n < stages.len(),
    ensures
        blobs_written(level, work, stages, replies, n) + stages[n].writes_left()
            <= stages[0].writes_left() <= 1,
    decreases n,
{
    if n > 0 {
        law_at_most_one_blob_is_written(level, work, stages, replies, n - 1);
        let _ = replies[n - 1];
        assert(stages[n - 1].goes_to(level, work, replies[n - 1], stages[n]));
    }
}

/// A blob is written for no other key than the one whose id the run was given.
pub proof fn law_blob_is_written_for_its_key(
    level: KeystoreSecurityLevel,
    work: Work,
    stages: Seq<Upgrade>,
    replies: Seq<Reply>,
    id: Option<i64>,
    n: int,
)
    requires
        Upgrade::run(level, work, stages, replies),
        stages[0] matches Upgrade::Running(run) && run.target matches Target::Stored { key_id, .. }
            && key_id == id,
        0 <= n < stages.len(),
    ensures
        stages[n].writes_only(id),
        stages[n].asks(&level, work) matches Request::SetKeyBlob { key_id, .. } ==> id == Some(
            key_id,
        ),
    decreases n,
{
    if n > 0 {
        law_blob_is_written_for_its_key(level, work, stages, replies, id, n - 1);
        let _ = replies[n - 1];
        assert(stages[n - 1].goes_to(level, work, replies[n - 1], stages[n]));
    }
}

/// A blob that was provisioned remotely is not written to the database.
pub proof fn law_provisioned_blob_is_not_stored(
    level: KeystoreSecurityLevel,
    work: Work,
    stages: Seq<Upgrade>,
    replies: Seq<Reply>,
    n: int,
)
    requires
        Upgrade::run(level, work, stages, replies),
        stages[0] matches Upgrade::Running(run) && run.target is Rkpd,
        0 <= n < stages.len(),
    ensures
        stages[n].writes_left() == 0,
        !(stages[n].asks(&level, work) is SetKeyBlob),
    decreases n,
{
    if n > 0 {
        law_provisioned_blob_is_not_stored(level, work, stages, replies, n - 1);
        let _ = replies[n - 1];
        assert(stages[n - 1].goes_to(level, work, replies[n - 1], stages[n]));
    }
}

impl Upgrade {
    /// The run is still this one, and no blob of it is on its way to the database.
    spec fn still_is(self, run: Run) -> bool {
        match self {
            Upgrade::Running(r) => r == run,
            Upgrade::Attempting(r, _) => r == run,
            Upgrade::KeepingRkpd(r, _) => r == run,
            Upgrade::Kept(r, _) => r == run,
            Upgrade::Keeping(_, _) => false,
            Upgrade::Reencrypting(_, _, _) => false,
            Upgrade::Done(_) => true,
        }
    }
}

proof fn lemma_component_learns(
    level: KeystoreSecurityLevel,
    work: Work,
    stages: Seq<Upgrade>,
    replies: Seq<Reply>,
    run: Run,
    n: int,
)
    requires
        Upgrade::run(level, work, stages, replies),
        stages[0] == Upgrade::Running(run),
        run.target is Rkpd,
        0 <= n < stages.len(),
    ensures
        stages[n].still_is(run),
        stages[n] matches Upgrade::KeepingRkpd(_, upgraded_blob) ==> exists|m: int|
            0 <= m < n && #[trigger] replies[m] == Reply::NewBlob(upgraded_blob),
    decreases n,
{
    if n > 0 {
        lemma_component_learns(level, work, stages, replies, run, n - 1);
        let _ = replies[n - 1];
        assert(stages[n - 1].goes_to(level, work, replies[n - 1], stages[n]));
    }
}

/// The component that provisioned a key is told of an upgraded blob only where one was handed
/// over, and learns that blob together with the one that it provisioned.
pub proof fn law_component_learns_of_an_upgrade(
    level: KeystoreSecurityLevel,
    work: Work,
    stages: Seq<Upgrade>,
    replies: Seq<Reply>,
    run: Run,
    n: int,
)
    requires
        Upgrade::run(level, work, stages, replies),
        stages[0] == Upgrade::Running(run),
        run.target is Rkpd,
        0 <= n < stages.len(),
    ensures
        stages[n].asks(&level, work) matches Request::StoreRkpdAttestationKey {
            rpc_name,
            key_blob,
            upgraded_blob,
        } ==> {
            &&& *rpc_name == run.target->rpc_name
            &&& *key_blob == run.key_blob.bytes
            &&& exists|m: int|
                0 <= m < n && #[trigger] replies[m] == Reply::NewBlob(*upgraded_blob)
        },
{
    lemma_component_learns(level, work, stages, replies, run, n);
}

/// The old blob is encrypted anew only where no upgraded blob was handed over.
pub proof fn law_old_blob_is_renewed_only_without_an_upgrade(
    level: KeystoreSecurityLevel,
    work: Work,
    stages: Seq<Upgrade>,
    replies: Seq<Reply>,
    n: int,
    m: int,
)
    requires
        Upgrade::run(level, work, stages, replies),
        0 <= m < n < stages.len(),
        !(stages[m] is Reencrypting),
        stages[n] is Reencrypting || stages[n].holds_id(),
    ensures
        !(stages[m] is Running && replies[m] is NewBlob),
        stages[m].holds_id(),
    decreases n - m,
{
    let _ = replies[n - 1];
    assert(stages[n - 1].goes_to(level, work, replies[n - 1], stages[n]));
    if m < n - 1 {
        law_old_blob_is_renewed_only_without_an_upgrade(level, work, stages, replies, n - 1, m);
    }
}

impl Upgrade {
    /// The run learns that an upgraded blob could not be kept.
    pub open spec fn learns_failure(self) -> bool {
        self matches Upgrade::Kept(_, r) && r is Err
    }

    /// Whoever runs the operation heeds what it is told: once it was told that an upgraded blob
    /// could not be kept, it does not say that the operation is done.
    pub open spec fn runner_heeds(stages: Seq<Upgrade>, replies: Seq<Reply>) -> bool {
        forall|i: int, j: int|
            #![trigger replies[i], replies[j]]
            0 <= i < j < replies.len() && stages[i].learns_failure() && replies[i] is Returned
                && stages[j] is Running ==> !(replies[j] matches Reply::UpgradeDone(Ok(_)))
    }

    /// In the first `n` steps the run was told that an upgraded blob could not be kept.
    spec fn was_told_failure(stages: Seq<Upgrade>, replies: Seq<Reply>, n: int) -> bool {
        exists|i: int|
            0 <= i < n && stages[i].learns_failure() && #[trigger] replies[i] is Returned
    }
}

proof fn lemma_failure_to_keep(
    level: KeystoreSecurityLevel,
    work: Work,
    stages: Seq<Upgrade>,
    replies: Seq<Reply>,
    m: int,
    n: int,
)
    requires
        Upgrade::run(level, work, stages, replies),
        Upgrade::runner_heeds(stages, replies),
        0 <= m <= n < stages.len(),
        stages[m].learns_failure(),
    ensures
        stages[n].learns_failure() || Upgrade::was_told_failure(stages, replies, n),
        !(stages[n] is Reencrypting),
        stages[n] matches Upgrade::Done(r) ==> r is Err,
    decreases n,
{
    if m < n {
        lemma_failure_to_keep(level, work, stages, replies, m, n - 1);
        let reply = replies[n - 1];
        assert(stages[n - 1].goes_to(level, work, reply, stages[n]));
        if Upgrade::was_told_failure(stages, replies, n - 1) {
            let i = choose|i: int|
                0 <= i < n - 1 && stages[i].learns_failure() && #[trigger] replies[i] is Returned;
            assert(replies[i] is Returned);
            if stages[n - 1] is Running {
                assert(!(replies[n - 1] matches Reply::UpgradeDone(Ok(_))));
            }
        } else if reply is Returned {
            assert(replies[n - 1] is Returned);
        }
    }
}

/// Where an upgraded blob could not be kept, and whoever runs the operation heeds that, the run
/// does not succeed, and the old blob is not written either.
pub proof fn law_run_fails_where_the_blob_is_not_kept(
    level: KeystoreSecurityLevel,
    work: Work,
    stages: Seq<Upgrade>,
    replies: Seq<Reply>,
    m: int,
    n: int,
)
    requires
        Upgrade::run(level, work, stages, replies),
        Upgrade::runner_heeds(stages, replies),
        0 <= m <= n < stages.len(),
        stages[m].learns_failure(),
    ensures
        !(stages[n] is Reencrypting),
        stages[n] matches Upgrade::Done(r) ==> r is Err,
{
    lemma_failure_to_keep(level, work, stages, replies, m, n);
}

/// The outcome of a run is of the kind that the operation has.
pub proof fn law_outcome_has_the_kind_of_the_operation(
    level: KeystoreSecurityLevel,
    work: Work,
    stages: Seq<Upgrade>,
    replies: Seq<Reply>,
    n: int,
)
    requires
        Upgrade::run(level, work, stages, replies),
        stages[0] is Running,
        0 <= n < stages.len(),
    ensures
        stages[n].has_kind(work),
    decreases n,
{
    if n > 0 {
        law_outcome_has_the_kind_of_the_operation(level, work, stages, replies, n - 1);
        let _ = replies[n - 1];
        assert(stages[n - 1].goes_to(level, work, replies[n - 1], stages[n]));
    }
}

/// An operation for which there is no room is tried again, on the same blob, once there is.
pub proof fn law_begin_is_tried_again(
    level: KeystoreSecurityLevel,
    work: Work,
    blob: Vec<u8>,
    pruning: Attempt,
    again: Attempt,
)
    requires
        work is Begin,
        Attempt::Calling(blob).goes_to(
            level,
            work,
            Reply::Begun(Err(Error::Km(ErrorCode::TooManyOperations))),
            pruning,
        ),
        pruning.goes_to(level, work, Reply::Status(Ok(())), again),
    ensures
        again == Attempt::Calling(blob),
{
}

} // verus!
