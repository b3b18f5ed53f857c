//! The dialogue of a run of work on a key blob: what is asked in turn, said of the work, of the
//! blob and of what was answered before.

use vstd::prelude::*;
use crate::level::KeystoreSecurityLevel;
use crate::lists::law_tags_are_found_wherever_they_stand;
use crate::params::{has_tag_among, swapped_imeis};
use crate::request::{AttestationKeyRef, Outcome, Reply, Request};
use crate::retry::GenerateRetry;
use crate::types::{
    model, Algorithm, BlobMetaData, Device, Error, ErrorCode, KeyCreationResult, KeyParameter, Tag,
    Uuid,
};
use crate::upgrade::{Attempt, Run, StoreUpgraded, Target, Upgrade, Work};

verus! {

/// What was heard in a run.
pub struct RunHeard {
    /// The blob on which the operation was last called for.
    pub called_on: Option<Vec<u8>>,
    /// How often the device was asked for a key since then.
    pub tries: nat,
    /// The upgraded blob that was last handed over.
    pub new_blob: Option<Vec<u8>>,
    /// The outcome, once the operation is done.
    pub done: Option<(Outcome, Option<Vec<u8>>)>,
}

impl RunHeard {
    /// Nothing was heard yet.
    pub open spec fn nothing() -> RunHeard {
        RunHeard { called_on: None, tries: 0, new_blob: None, done: None }
    }

    /// What was heard once this request got this reply, where the work begins an operation or does
    /// not. An outcome of the other kind is none.
    pub open spec fn heard(self, begins: bool, request: Request, reply: Reply) -> RunHeard {
        match (request, reply) {
            (Request::RunWithUpgrade { .. }, Reply::OperationCalled(blob)) => RunHeard {
                called_on: Some(blob),
                tries: 0,
                ..self
            },
            (Request::RunWithUpgrade { .. }, Reply::NewBlob(blob)) => RunHeard {
                new_blob: Some(blob),
                ..self
            },
            (Request::RunWithUpgrade { .. }, Reply::UpgradeDone(Ok(done))) if begins
                == done.0 is Begun => RunHeard { done: Some(done), ..self },
            (Request::GenerateKey { .. }, Reply::Created(_)) => RunHeard {
                tries: self.tries + 1,
                ..self
            },
            _ => self,
        }
    }

    /// The id of the stored key for which a blob is still to be written.
    pub open spec fn unwritten(self, run: Run) -> Option<i64> {
        match run.target {
            Target::Stored { key_id, .. } if self.new_blob is None => key_id,
            _ => None,
        }
    }

    /// The run stands at this stage, and holds what was heard.
    pub open spec fn holds(self, work: Work, run: Run, stage: Upgrade) -> bool {
        match stage {
            Upgrade::Running(r) => self.is_same(run, r) && self.done is None,
            Upgrade::Attempting(r, attempt) => {
                &&& self.is_same(run, r) && self.done is None
                &&& match attempt {
                    Attempt::Calling(blob) | Attempt::Pruning(blob) => {
                        self.called_on == Some(blob) && !(work is GenerateProvisioned)
                    },
                    Attempt::Retrying(blob, retry) => {
                        &&& self.called_on == Some(blob)
                        &&& work is GenerateProvisioned
                        &&& match retry {
                            GenerateRetry::First => self.tries == 0,
                            GenerateRetry::Second(swapped) => self.tries == 1 && model(swapped@)
                                == swapped_imeis(model(work->GenerateProvisioned_params@)),
                            GenerateRetry::Done(_) => false,
                        }
                    },
                    Attempt::Identifying(key_id) => {
                        work matches Work::Begin { key_id: id, .. } && id == Some(key_id)
                    },
                    _ => true,
                }
            },
            Upgrade::Keeping(r, store) => {
                &&& self.is_same(run, r) && self.done is None && self.new_blob is Some
                &&& keeps_for(store, run, self.new_blob)
            },
            Upgrade::KeepingRkpd(r, blob) => {
                &&& self.is_same(run, r) && self.done is None
                &&& self.new_blob == Some(blob)
                &&& run.target is Rkpd
            },
            Upgrade::Kept(r, _) => self.is_same(run, r) && self.done is None,
            Upgrade::Reencrypting(key_blob, done, store) => {
                &&& key_blob == run.key_blob
                &&& self.done == Some(done)
                &&& self.new_blob is None
                &&& keeps_for(store, run, None)
            },
            Upgrade::Done(_) => true,
        }
    }

    /// The run works on the same blob, and writes no second one.
    pub open spec fn is_same(self, run: Run, r: Run) -> bool {
        &&& r.key_blob == run.key_blob
        &&& match (run.target, r.target) {
            (
                Target::Stored { km_uuid, .. },
                Target::Stored { key_id: id, km_uuid: uuid },
            ) => uuid == km_uuid && id == self.unwritten(run),
            (Target::Rkpd { rpc_name }, Target::Rkpd { rpc_name: name }) => name == rpc_name,
            _ => false,
        }
    }
}

/// The blob is stored for the key of the run.
pub open spec fn keeps_for(store: StoreUpgraded, run: Run, blob: Option<Vec<u8>>) -> bool {
    &&& run.target matches Target::Stored { key_id: Some(key_id), km_uuid }
    &&& match store {
        StoreUpgraded::Reencrypting { key_id: id, km_uuid: uuid, upgraded_blob } => {
            id == key_id && uuid == km_uuid && upgraded_blob == blob
        },
        StoreUpgraded::Storing { key_id: id, .. } => id == key_id,
        StoreUpgraded::Done(_) => false,
    }
}

/// The error is one of those that come of IMEIs in the wrong order, on a device that takes two of
/// them in one order only, and an IMEI was asked for.
pub open spec fn mismatches(
    level: KeystoreSecurityLevel,
    params: Seq<KeyParameter>,
    r: Result<KeyCreationResult, Error>,
) -> bool {
    &&& r matches Err(e)
    &&& e == Error::Km(ErrorCode::CannotAttestIds) || e == Error::Km(ErrorCode::InvalidTag) || e
        == Error::Km(ErrorCode::AttestationIdsNotProvisioned)
    &&& 300 <= level.hw_info.version_number < 500
    &&& exists|i: int, j: int|
        0 <= i < params.len() && 0 <= j < level.rules.imei_tags@.len() && (
        #[trigger] params[i]).tag == #[trigger] level.rules.imei_tags@[j]
}

/// An IMEI was asked for exactly where some parameter has one of the tags for it.
pub proof fn lemma_imei_asked_for(params: Seq<KeyParameter>, tags: Seq<Tag>)
    ensures
        has_tag_among(model(params), tags) <==> exists|i: int, j: int|
            0 <= i < params.len() && 0 <= j < tags.len() && (#[trigger] params[i]).tag
                == #[trigger] tags[j],
{
    let ps = model(params);
    law_tags_are_found_wherever_they_stand(ps, Tag::Purpose, tags, Algorithm::Rsa);
    if has_tag_among(ps, tags) {
        let (i, j) = choose|i: int, j: int|
            0 <= i < ps.len() && 0 <= j < tags.len() && (#[trigger] ps[i]).tag
                == #[trigger] tags[j];
        assert(params[i].tag == tags[j]);
    }
    if exists|i: int, j: int|
        0 <= i < params.len() && 0 <= j < tags.len() && (#[trigger] params[i]).tag
            == #[trigger] tags[j] {
        let (i, j) = choose|i: int, j: int|
            0 <= i < params.len() && 0 <= j < tags.len() && (#[trigger] params[i]).tag
                == #[trigger] tags[j];
        assert(ps[i].tag == tags[j]);
    }
}

/// The device is asked to do the work on this blob.
pub open spec fn asks_device(asked: Request, work: Work, blob: Vec<u8>) -> bool {
    match work {
        Work::Begin { purpose, params, auth_token, .. } => asked == (Request::Begin {
            purpose,
            key_blob: &blob,
            params,
            auth_token,
        }),
        Work::GenerateAttested { device, params, issuer_subject, .. } => asked == (
        Request::GenerateKey {
            device,
            params,
            attest_key: Some(
                AttestationKeyRef { key_blob: &blob, issuer_subject_name: issuer_subject },
            ),
        }),
        Work::GenerateProvisioned { params, issuer_subject } => asked == (Request::GenerateKey {
            device: Device::Own,
            params,
            attest_key: Some(
                AttestationKeyRef { key_blob: &blob, issuer_subject_name: issuer_subject },
            ),
        }),
        Work::ImportWrapped {
            wrapped_data,
            masking_key,
            params,
            password_sid,
            fingerprint_sid,
        } => {
            asked == (Request::ImportWrappedKey {
                wrapped_data,
                wrapping_key_blob: &blob,
                masking_key,
                params,
                password_sid,
                fingerprint_sid,
            })
        },
    }
}

/// The device is asked for a key once more, with the IMEIs exchanged.
pub open spec fn asks_device_again(asked: Request, work: Work, blob: Vec<u8>) -> bool {
    &&& work matches Work::GenerateProvisioned { params, issuer_subject }
    &&& asked matches Request::GenerateKey { device, params: swapped, attest_key: Some(key) }
    &&& device == Device::Own
    &&& model(swapped@) == swapped_imeis(model(params@))
    &&& *key.key_blob == blob
    &&& key.issuer_subject_name == issuer_subject
}

/// Whoever runs the work is asked to go on with it, on the old blob: an operation on the device
/// at hand and a key for the caller's attestation key on the device of that key, each with its
/// parameters; the rest on the device at hand and with none.
pub open spec fn asks_runner(
    level: KeystoreSecurityLevel,
    asked: Request,
    work: Work,
    run: Run,
) -> bool {
    &&& asked matches Request::RunWithUpgrade { device, version, key_blob, params }
    &&& *key_blob == run.key_blob.bytes
    &&& match work {
        Work::Begin { params: p, .. } => device == Device::Own && version
            == level.hw_info.version_number && params == Some(p),
        Work::GenerateAttested { device: d, version: v, params: p, .. } => device == d && version
            == v && params == Some(p),
        _ => device == Device::Own && version == level.hw_info.version_number && params is None,
    }
}

/// What goes back to whoever runs the work is this outcome.
pub open spec fn hands_back(asked: Request, result: Result<Outcome, Error>) -> bool {
    asked matches Request::ReturnOutcome(r) && *r == result
}

/// What is stored beside a blob that was encrypted anew: the device of the key, if it is known,
/// or else that which the encryption names; and what else the encryption needs.
pub open spec fn is_metadata_of(
    stored: BlobMetaData,
    metadata: Option<BlobMetaData>,
    km_uuid: Option<Uuid>,
) -> bool {
    &&& stored.km_uuid == match (km_uuid, metadata) {
        (Some(uuid), _) => Some(uuid),
        (None, Some(m)) => m.km_uuid,
        (None, None) => None,
    }
    &&& stored.others == match metadata {
        Some(m) => m.others,
        None => None,
    }
}

/// One turn of the dialogue: what follows this request and this reply.
pub open spec fn run_turn(
    level: KeystoreSecurityLevel,
    work: Work,
    run: Run,
    heard: RunHeard,
    stage: Upgrade,
    reply: Reply,
    next: Upgrade,
) -> bool {
    let asked = next.asks(&level, work);
    let blob = heard.called_on->0;
    match (stage.asks(&level, work), reply) {
        (Request::RunWithUpgrade { .. }, Reply::OperationCalled(b)) => asks_device(
            asked,
            work,
            b,
        ),
        (Request::RunWithUpgrade { .. }, Reply::NewBlob(b)) => match (
            run.target,
            heard.unwritten(run),
        ) {
            (Target::Rkpd { rpc_name }, _) => {
                &&& asked matches Request::StoreRkpdAttestationKey {
                    rpc_name: name,
                    key_blob,
                    upgraded_blob,
                }
                &&& *name == rpc_name
                &&& *key_blob == run.key_blob.bytes
                &&& *upgraded_blob == b
            },
            (_, Some(_)) => {
                &&& asked matches Request::ReencryptIfRequired { key_blob, upgraded_blob }
                &&& *key_blob == run.key_blob
                &&& *upgraded_blob == b
            },
            (_, None) => asked == Request::ReturnStatus(Ok(())),
        },
        (Request::RunWithUpgrade { .. }, Reply::UpgradeDone(Ok(done))) => {
            if work is Begin != done.0 is Begun {
                next == stage
            } else if heard.unwritten(run) is Some && run.key_blob.force_reencrypt {
                &&& asked matches Request::ReencryptIfRequired { key_blob, upgraded_blob }
                &&& *key_blob == run.key_blob
                &&& *upgraded_blob == run.key_blob.bytes
            } else {
                next == Upgrade::Done(Ok(done))
            }
        },
        (Request::RunWithUpgrade { .. }, Reply::UpgradeDone(Err(e))) => next == Upgrade::Done(
            Err(e),
        ),
        (Request::Begin { .. }, Reply::Begun(r)) => match (r, work->Begin_key_id) {
            (Err(Error::Km(ErrorCode::TooManyOperations)), _) => asked == (
            Request::PruneOperations { uid: work->Begin_uid, forced: work->forced }),
            (Err(Error::Km(ErrorCode::InvalidKeyBlob)), Some(key_id)) => asked == (
            Request::LoadKeyDescriptor { key_id }),
            (Ok(begun), _) => hands_back(asked, Ok(Outcome::Begun(begun))),
            (Err(e), _) => hands_back(asked, Err(e)),
        },
        (Request::PruneOperations { .. }, Reply::Status(Ok(_))) => asks_device(asked, work, blob),
        (Request::PruneOperations { .. }, Reply::Status(Err(e))) => hands_back(asked, Err(e)),
        (Request::LoadKeyDescriptor { .. }, Reply::Descriptor(r)) => match r {
            Ok(Some(key)) => asked == (Request::LogKeyIntegrityViolation { key: &key }),
            _ => hands_back(asked, Err(Error::Km(ErrorCode::InvalidKeyBlob))),
        },
        (Request::LogKeyIntegrityViolation { .. }, Reply::Returned) => hands_back(
            asked,
            Err(Error::Km(ErrorCode::InvalidKeyBlob)),
        ),
        (
            Request::GenerateKey { .. } | Request::ImportWrappedKey { .. },
            Reply::Created(r),
        ) => match (work, r) {
            (Work::GenerateProvisioned { params, .. }, _) if heard.tries == 0 && mismatches(
                level,
                params@,
                r,
            ) => asks_device_again(asked, work, blob),
            (_, Ok(created)) => hands_back(asked, Ok(Outcome::Created(created))),
            (_, Err(e)) => hands_back(asked, Err(e)),
        },
        (Request::ReturnOutcome(_), Reply::Returned) => asks_runner(level, asked, work, run),
        (Request::ReencryptIfRequired { .. }, Reply::Reencrypted(Ok((b, metadata)))) => {
            &&& asked matches Request::SetKeyBlob { key_id, blob, blob_metadata }
            &&& run.target matches Target::Stored { key_id: id, km_uuid }
            &&& Some(key_id) == id
            &&& *blob == b
            &&& is_metadata_of(blob_metadata, metadata, km_uuid)
        },
        (Request::ReencryptIfRequired { .. }, Reply::Reencrypted(Err(e))) => {
            if heard.done is Some {
                next == Upgrade::Done(Err(e))
            } else {
                asked == Request::ReturnStatus(Err(e))
            }
        },
        (Request::SetKeyBlob { .. }, Reply::Status(r)) => match (heard.done, r) {
            (Some(done), Ok(_)) => next == Upgrade::Done(Ok(done)),
            (Some(_), Err(e)) => next == Upgrade::Done(Err(e)),
            (None, r) => asked == Request::ReturnStatus(r),
        },
        (Request::StoreRkpdAttestationKey { .. }, Reply::Status(r)) => asked
            == Request::ReturnStatus(r),
        (Request::ReturnStatus(_), Reply::Returned) => asks_runner(level, asked, work, run),
        _ => next == stage,
    }
}

/// One step of a run is one turn of the dialogue, and keeps what was heard.
pub proof fn lemma_run_turn(
    level: KeystoreSecurityLevel,
    work: Work,
    run: Run,
    heard: RunHeard,
    stage: Upgrade,
    reply: Reply,
    next: Upgrade,
)
    requires
        heard.holds(work, run, stage),
        stage.goes_to(level, work, reply, next),
    ensures
        heard.heard(work is Begin, stage.asks(&level, work), reply).holds(work, run, next),
        run_turn(level, work, run, heard, stage, reply, next),
{
    if let Work::GenerateProvisioned { params, .. } = work {
        lemma_imei_asked_for(params@, level.rules.imei_tags@);
    }
}

impl Upgrade {
    /// What was heard in the first `n` steps of the run.
    pub open spec fn heard_in(
        level: KeystoreSecurityLevel,
        work: Work,
        stages: Seq<Upgrade>,
        replies: Seq<Reply>,
        n: int,
    ) -> RunHeard
        decreases n,
    {
        if n <= 0 {
            RunHeard::nothing()
        } else {
            Upgrade::heard_in(level, work, stages, replies, n - 1).heard(
                work is Begin,
                stages[n - 1].asks(&level, work),
                replies[n - 1],
            )
        }
    }
}

/// A run of work on a blob, turn by turn. Whoever runs it is asked to; where it calls for the work
/// on a blob, the device is asked for the work on that blob; where it hands over an upgraded
/// blob, that is kept, once for a stored key and each time for a provisioned one; and what comes
/// of these goes back. When it is done, the old blob is encrypted anew where that is due and none
/// was written.
pub proof fn law_run_in_turn(
    level: KeystoreSecurityLevel,
    work: Work,
    run: Run,
    stages: Seq<Upgrade>,
    replies: Seq<Reply>,
    n: int,
)
    requires
        Upgrade::run(level, work, stages, replies),
        stages[0] == Upgrade::Running(run),
        0 <= n < stages.len(),
    ensures
        Upgrade::heard_in(level, work, stages, replies, n).holds(work, run, stages[n]),
        asks_runner(level, stages[0].asks(&level, work), work, run),
        n < replies.len() ==> run_turn(
            level,
            work,
            run,
            Upgrade::heard_in(level, work, stages, replies, n),
            stages[n],
            replies[n],
            stages[n + 1],
        ),
    decreases n,
{
    let heard = Upgrade::heard_in(level, work, stages, replies, n);
    if n > 0 {
        law_run_in_turn(level, work, run, stages, replies, n - 1);
        let _ = replies[n - 1];
        lemma_run_turn(
            level,
            work,
            run,
            Upgrade::heard_in(level, work, stages, replies, n - 1),
            stages[n - 1],
            replies[n - 1],
            stages[n],
        );
    }
    if n < replies.len() {
        assert(stages[n].goes_to(level, work, replies[n], stages[n + 1]));
        lemma_run_turn(level, work, run, heard, stages[n], replies[n], stages[n + 1]);
    }
}

} // verus!
