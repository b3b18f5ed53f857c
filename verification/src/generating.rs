//! The dialogue of a generation: what is asked in turn, said of the arguments of the caller and of
//! what was answered before.

use vstd::prelude::*;
use crate::admission::{admission_turn, counted, lemma_admission_turn, Admission};
use crate::dialogue::{
    asks_runner, lemma_imei_asked_for, lemma_run_turn, mismatches, run_turn, RunHeard,
};
use crate::generate::{GenerateKey, KeyRequest, Made, Making};
use crate::laws::{is_whole, material, KeyMaterial};
use crate::level::{bound_to, KeystoreSecurityLevel};
use crate::lists::{lacks, law_tags_are_found_wherever_they_stand};
use crate::params::swapped_imeis;
use crate::request::{Outcome, Reply, Request};
use crate::required::{
    completion_turn, lemma_completion_turn, lemma_course, lemma_step_on_course, on_course, Answers,
    Completion,
};
use crate::retry::GenerateRetry;
use crate::store::StoreNewKey;
use crate::types::{
    model, Algorithm, AttestationKeyInfo, Caller, Certificate, Device, Domain, Error, ErrorCode,
    KeyBlob, KeyCreationResult, KeyDescriptor, KeyParameter, Param, Tag,
};
use crate::upgrade::{Run, Target, Upgrade, Work};

verus! {

/// What was heard in a generation.
pub struct GenerationHeard {
    pub count: Option<i32>,
    /// The attestation key that was found.
    pub found: Option<AttestationKeyInfo>,
    /// Whether the attestation key is tracked, and whether it is treated so.
    pub tracks: bool,
    pub treats: bool,
    /// The interface version of the device that holds the attestation key, if it was found.
    pub version: Option<i32>,
    pub rpc_name: Option<String>,
    pub in_software: bool,
    /// The key as it is after all that was done to it.
    pub made: Option<KeyMaterial>,
    /// The parameters with the patch levels of the key.
    pub synced: Option<Vec<KeyParameter>>,
    pub run: RunHeard,
}

impl GenerationHeard {
    /// Nothing was heard yet.
    pub open spec fn nothing() -> GenerationHeard {
        GenerationHeard {
            count: None,
            found: None,
            tracks: false,
            treats: false,
            version: None,
            rpc_name: None,
            in_software: false,
            made: None,
            synced: None,
            run: RunHeard::nothing(),
        }
    }

    /// What was made, once this request got this reply.
    pub open spec fn made_after(self, request: Request, reply: Reply) -> Option<KeyMaterial> {
        match (request, reply) {
            (Request::GenerateSoftwareKey { .. }, Reply::Software(Ok(Some(created)))) => Some(
                material(created),
            ),
            (Request::GenerateKey { attest_key: None, .. }, Reply::Created(Ok(created))) => Some(
                material(created),
            ),
            (
                Request::RunWithUpgrade { .. },
                Reply::UpgradeDone(Ok((Outcome::Created(created), _))),
            ) => Some(material(created)),
            (Request::UseCertProcessor, Reply::Decision(r)) => match (r, self.made, self.found) {
                (Ok(true), _, _) => self.made,
                (
                    _,
                    Some(made),
                    Some(AttestationKeyInfo::RkpdProvisioned { attestation_certs, .. }),
                ) => Some(
                    KeyMaterial {
                        certificate_chain: made.certificate_chain.push(
                            Certificate { encoded_certificate: attestation_certs },
                        ),
                        ..made
                    },
                ),
                _ => self.made,
            },
            (Request::ProcessCertificateChain { .. }, Reply::Chain(chain)) => match self.made {
                Some(made) => Some(KeyMaterial { certificate_chain: chain@, ..made }),
                None => None,
            },
            (Request::OverrideCertificateChain { .. }, Reply::Revised(created)) => Some(
                material(created),
            ),
            _ => self.made,
        }
    }

    /// What was heard once this request got this reply.
    pub open spec fn heard(self, request: Request, reply: Reply) -> GenerationHeard {
        GenerationHeard {
            count: counted(self.count, request, reply),
            found: match (request, reply) {
                (Request::AttestKeyInfo { .. }, Reply::AttestKey(Ok(info))) => info,
                _ => self.found,
            },
            tracks: match (request, reply) {
                (Request::UsesTrackedAttestKey { .. }, Reply::Flag(tracks)) => tracks,
                _ => self.tracks,
            },
            treats: match (request, reply) {
                (Request::TreatExternalAttestKeyAsCompat { .. }, Reply::Flag(treats)) => treats,
                _ => self.treats,
            },
            version: match (request, reply) {
                (Request::KeyMintByUuid { .. }, Reply::DeviceVersion(Ok(version))) => Some(version),
                _ => self.version,
            },
            rpc_name: match (request, reply) {
                (Request::RemotelyProvisionedComponentName { .. }, Reply::Name(Ok(name))) => Some(
                    name,
                ),
                _ => self.rpc_name,
            },
            in_software: match (request, reply) {
                (Request::GenerateSoftwareKey { .. }, Reply::Software(Ok(Some(_)))) => true,
                _ => self.in_software,
            },
            made: self.made_after(request, reply),
            synced: match (request, reply) {
                (Request::SyncPatchlevelAuthorizations { .. }, Reply::Parameters(params)) => Some(
                    params,
                ),
                _ => self.synced,
            },
            run: self.run.heard(false, request, reply),
        }
    }

    /// The attestation is signed by a key of the caller's own.
    pub open spec fn is_users(self) -> bool {
        self.found matches Some(AttestationKeyInfo::UserGenerated { .. })
    }

    /// The device that makes the key for the caller's attestation key: the one that holds that
    /// key, if it was found, and else the device at hand.
    pub open spec fn device(self) -> Device {
        match (self.found, self.version) {
            (Some(AttestationKeyInfo::UserGenerated { blob_metadata, .. }), Some(_)) => {
                match blob_metadata.km_uuid {
                    Some(uuid) => Device::ByUuid(uuid),
                    None => Device::Own,
                }
            },
            _ => Device::Own,
        }
    }

    /// The interface version of that device.
    pub open spec fn device_version(self, level: KeystoreSecurityLevel) -> i32 {
        match self.version {
            Some(version) => version,
            None => level.hw_info.version_number,
        }
    }

    /// The work of the device that the attestation key signs.
    pub open spec fn is_work(
        self,
        level: KeystoreSecurityLevel,
        ps: Seq<Param>,
        answers: Answers,
        work: Work,
    ) -> bool {
        match (self.found, work) {
            (
                Some(AttestationKeyInfo::UserGenerated { issuer_subject: issuer, .. }),
                Work::GenerateAttested { device, version, params, issuer_subject },
            ) => {
                &&& device == self.device()
                &&& version == self.device_version(level)
                &&& is_whole(level, ps, answers, *params)
                &&& *issuer_subject == issuer
            },
            (
                Some(AttestationKeyInfo::RkpdProvisioned { issuer_subject: issuer, .. }),
                Work::GenerateProvisioned { params, issuer_subject },
            ) => is_whole(level, ps, answers, *params) && *issuer_subject == issuer,
            _ => false,
        }
    }

    /// The run works on the blob of the attestation key, and an upgraded one is stored for that
    /// key or goes to the component that provisioned it.
    pub open spec fn run_on_attest_key(self) -> Run {
        match self.found {
            Some(AttestationKeyInfo::UserGenerated { key_id, blob, blob_metadata, .. }) => Run {
                key_blob: KeyBlob { bytes: blob, force_reencrypt: false, sealed_with: None },
                target: Target::Stored { key_id: Some(key_id), km_uuid: blob_metadata.km_uuid },
            },
            Some(AttestationKeyInfo::RkpdProvisioned { key_blob, .. }) => Run {
                key_blob: KeyBlob { bytes: key_blob, force_reencrypt: false, sealed_with: None },
                target: Target::Rkpd { rpc_name: self.rpc_name->0 },
            },
            None => arbitrary(),
        }
    }
}

impl GenerateKey {
    /// What was heard in the first `n` steps.
    pub open spec fn heard_in(
        level: KeystoreSecurityLevel,
        stages: Seq<GenerateKey>,
        replies: Seq<Reply>,
        n: int,
    ) -> GenerationHeard
        decreases n,
    {
        if n <= 0 {
            GenerationHeard::nothing()
        } else {
            GenerateKey::heard_in(level, stages, replies, n - 1).heard(
                stages[n - 1].asks(&level),
                replies[n - 1],
            )
        }
    }
}

/// These are the completed parameters.
#[verifier::opaque]
spec fn is_completed(
    level: KeystoreSecurityLevel,
    ps: Seq<Param>,
    answers: Answers,
    params: Vec<KeyParameter>,
) -> bool {
    is_whole(level, ps, answers, params)
}

/// A key that is being made.
spec fn is_making(
    level: KeystoreSecurityLevel,
    request: KeyRequest,
    params: Vec<KeyParameter>,
    h: GenerationHeard,
    answers: Answers,
    making: Making,
) -> bool {
    &&& making.request == request
    &&& is_completed(level, model(params@), answers, making.params)
    &&& making.uses_tracked_key == (h.tracks || h.treats)
    &&& h.synced is None
}

/// A key that was made.
spec fn is_made(
    request: KeyRequest,
    h: GenerationHeard,
    made: Made,
) -> bool {
    &&& made.request == request
    &&& made.uses_tracked_key == (h.tracks || h.treats)
    &&& made.externally_attested == (h.is_users() && !h.in_software)
    &&& made.in_software == h.in_software
    &&& h.made == Some(material(made.created))
}

/// What holds at every stage.
spec fn generation_holds(
    level: KeystoreSecurityLevel,
    request: KeyRequest,
    params: Vec<KeyParameter>,
    stage: GenerateKey,
    h: GenerationHeard,
    answers: Answers,
) -> bool {
    let ps = model(params@);
    let uid = request.caller.uid;
    match stage {
        GenerateKey::Admitting(r, p, admission) => {
            &&& r == request && p == params && admission.is_for(request.key, h.count)
            &&& h == (GenerationHeard { count: h.count, ..GenerationHeard::nothing() })
        },
        GenerateKey::Preferring(r, p) | GenerateKey::FindingAttestKey(r, p) => {
            &&& r == request && p == params
            &&& h == (GenerationHeard { count: h.count, ..GenerationHeard::nothing() })
        },
        GenerateKey::Completing(r, info, completing) => {
            &&& r == request && info == h.found
            &&& on_course(level, uid, ps, answers, completing@)
            &&& !(completing@ is Done)
            &&& is_fresh(h)
        },
        GenerateKey::Tracking(r, p, info) => {
            &&& r == request && info == h.found && is_completed(level, ps, answers, p)
            &&& is_fresh(h)
        },
        GenerateKey::Comparing(r, p, info) => {
            &&& r == request && info == h.found && is_completed(level, ps, answers, p)
            &&& is_fresh(h)
        },
        GenerateKey::Choosing(making, info) | GenerateKey::InSoftware(making, info) => {
            &&& is_making(level, request, params, h, answers, making)
            &&& info == h.found
            &&& !h.in_software && h.version is None && h.run == RunHeard::nothing()
        },
        GenerateKey::FindingDevice(making, attester, uuid) => {
            &&& is_making(level, request, params, h, answers, making)
            &&& !h.in_software && h.version is None && h.run == RunHeard::nothing()
            &&& h.found matches Some(
                AttestationKeyInfo::UserGenerated { key_id, blob, blob_metadata, issuer_subject },
            )
            &&& attester.key_id == key_id
            &&& attester.blob == blob
            &&& attester.km_uuid == blob_metadata.km_uuid
            &&& attester.issuer_subject == issuer_subject
            &&& blob_metadata.km_uuid == Some(uuid)
        },
        GenerateKey::Attesting { making, device, version, issuer_subject, run } => {
            &&& is_making(level, request, params, h, answers, making)
            &&& !h.in_software
            &&& h.found matches Some(
                AttestationKeyInfo::UserGenerated { issuer_subject: issuer, .. },
            )
            &&& issuer_subject == issuer
            &&& device == h.device()
            &&& version == h.device_version(level)
            &&& h.run.holds(
                making.attested_work(device, version, &issuer_subject),
                h.run_on_attest_key(),
                run,
            )
            &&& holds_outcome(run, h.made)
        },
        GenerateKey::NamingComponent { making, key_blob, issuer_subject, attestation_certs } => {
            &&& is_making(level, request, params, h, answers, making)
            &&& !h.in_software && h.run == RunHeard::nothing()
            &&& h.found == Some(
                AttestationKeyInfo::RkpdProvisioned { key_blob, issuer_subject, attestation_certs },
            )
        },
        GenerateKey::Provisioned { making, issuer_subject, attestation_certs, run } => {
            &&& is_making(level, request, params, h, answers, making)
            &&& !h.in_software
            &&& h.found matches Some(
                AttestationKeyInfo::RkpdProvisioned {
                    issuer_subject: issuer,
                    attestation_certs: certs,
                    ..
                },
            )
            &&& issuer_subject == issuer
            &&& attestation_certs == certs
            &&& h.rpc_name is Some
            &&& h.run.holds(making.provisioned_work(&issuer_subject), h.run_on_attest_key(), run)
            &&& holds_outcome(run, h.made)
        },
        GenerateKey::AskingProcessor(made, certs) | GenerateKey::Processing(made, certs) => {
            &&& is_made(request, h, made)
            &&& is_completed(level, ps, answers, made.params)
            &&& h.synced is None
            &&& h.found matches Some(
                AttestationKeyInfo::RkpdProvisioned { attestation_certs, .. },
            )
            &&& certs == attestation_certs
        },
        GenerateKey::Plain(making, retry) => {
            &&& is_making(level, request, params, h, answers, making)
            &&& !h.in_software && h.found is None
            &&& match retry {
                GenerateRetry::First => h.run.tries == 0,
                GenerateRetry::Second(swapped) => h.run.tries == 1 && model(swapped@)
                    == swapped_imeis(model(making.params@)),
                GenerateRetry::Done(_) => false,
            }
        },
        GenerateKey::Overriding(made) | GenerateKey::Syncing(made) => {
            &&& is_made(request, h, made)
            &&& is_completed(level, ps, answers, made.params)
            &&& h.synced is None
        },
        GenerateKey::Marking(made) => {
            &&& is_made(request, h, made)
            &&& match h.synced {
                Some(synced) => made.params == synced,
                None => is_completed(level, ps, answers, made.params),
            }
        },
        _ => true,
    }
}

/// Nothing was heard but the count and the attestation key.
spec fn is_fresh(h: GenerationHeard) -> bool {
    h == (GenerationHeard { count: h.count, found: h.found, ..GenerationHeard::nothing() })
}

/// Where only the old blob is to be written, the outcome is what was made.
spec fn holds_outcome(run: Upgrade, made: Option<KeyMaterial>) -> bool {
    &&& !(run is Done)
    &&& run matches Upgrade::Reencrypting(_, done, _) ==> done.0 is Created && made == Some(
        material(done.0->Created_0),
    )
}

proof fn lemma_outcome(
    level: KeystoreSecurityLevel,
    work: Work,
    h: GenerationHeard,
    run: Upgrade,
    reply: Reply,
    next: Upgrade,
)
    requires
        holds_outcome(run, h.made),
        run.goes_to(level, work, reply, next),
        work is GenerateAttested || work is GenerateProvisioned,
    ensures
        !(next is Done) ==> holds_outcome(
            next,
            h.made_after(run.asks(&level, work), reply),
        ),
        next matches Upgrade::Done(Ok(done)) ==> done.0 is Created && h.made_after(
            run.asks(&level, work),
            reply,
        ) == Some(material(done.0->Created_0)),
{
}

/// Where the run of a generation stands here, if it is under way or just over: it was at `run` and
/// got this reply.
pub open spec fn run_after(
    next: GenerateKey,
    run: Upgrade,
    level: KeystoreSecurityLevel,
    work: Work,
    reply: Reply,
) -> Upgrade {
    match next {
        GenerateKey::Attesting { run: again, .. } => again,
        GenerateKey::Provisioned { run: again, .. } => again,
        GenerateKey::Done(Err(e)) => Upgrade::Done(Err(e)),
        _ => choose|u: Upgrade|
            (u matches Upgrade::Done(Ok(done)) && done.0 is Created) && #[trigger] run.goes_to(
                level,
                work,
                reply,
                u,
            ),
    }
}

#[verifier::rlimit(30)]
proof fn lemma_attesting_holds(
    level: KeystoreSecurityLevel,
    request: KeyRequest,
    params: Vec<KeyParameter>,
    stage: GenerateKey,
    h: GenerationHeard,
    answers: Answers,
    reply: Reply,
    next: GenerateKey,
)
    requires
        generation_holds(level, request, params, stage, h, answers),
        stage.goes_to(level, reply, next),
        stage is Attesting || stage is Provisioned,
    ensures
        generation_holds(
            level,
            request,
            params,
            next,
            h.heard(stage.asks(&level), reply),
            answers.heard(stage.asks(&level), reply),
        ),
{
    let heard = h.heard(stage.asks(&level), reply);
    assert(answers.heard(stage.asks(&level), reply) == answers);
    match stage {
        GenerateKey::Attesting { making, device, version, issuer_subject, run } => {
            let work = making.attested_work(device, version, &issuer_subject);
            let after = run_after(next, run, level, work, reply);
            lemma_attesting_ends(level, next, run, work, reply, stage);
            lemma_run_turn(level, work, h.run_on_attest_key(), h.run, run, reply, after);
            lemma_outcome(level, work, h, run, reply, after);
            assert(heard.run_on_attest_key() == h.run_on_attest_key());
        },
        GenerateKey::Provisioned { making, issuer_subject, run, .. } => {
            let work = making.provisioned_work(&issuer_subject);
            let after = run_after(next, run, level, work, reply);
            lemma_attesting_ends(level, next, run, work, reply, stage);
            lemma_run_turn(level, work, h.run_on_attest_key(), h.run, run, reply, after);
            lemma_outcome(level, work, h, run, reply, after);
            assert(heard.run_on_attest_key() == h.run_on_attest_key());
        },
        _ => {},
    }
}

/// What the next stage of a run is.
proof fn lemma_attesting_ends(
    level: KeystoreSecurityLevel,
    next: GenerateKey,
    run: Upgrade,
    work: Work,
    reply: Reply,
    stage: GenerateKey,
)
    requires
        stage.goes_to(level, reply, next),
        match stage {
            GenerateKey::Attesting { making, device, version, issuer_subject, run: r } => {
                r == run && work == making.attested_work(device, version, &issuer_subject)
            },
            GenerateKey::Provisioned { making, issuer_subject, run: r, .. } => {
                r == run && work == making.provisioned_work(&issuer_subject)
            },
            _ => false,
        },
    ensures
        run.goes_to(level, work, reply, run_after(next, run, level, work, reply)),
        match (stage, next) {
            (
                GenerateKey::Attesting { making, .. },
                GenerateKey::Overriding(m) | GenerateKey::Marking(m),
            ) => {
                &&& run_after(next, run, level, work, reply) matches Upgrade::Done(Ok(done))
                &&& done.0 is Created
                &&& next == making.done(done.0->Created_0, true, false).revised()
                &&& m == making.done(done.0->Created_0, true, false)
            },
            (GenerateKey::Provisioned { making, .. }, GenerateKey::AskingProcessor(m, _)) => {
                &&& run_after(next, run, level, work, reply) matches Upgrade::Done(Ok(done))
                &&& done.0 is Created
                &&& m == making.done(done.0->Created_0, false, false)
            },
            _ => true,
        },
{
    match next {
        GenerateKey::Overriding(m)
        | GenerateKey::Marking(m)
        | GenerateKey::AskingProcessor(m, _) => {
            let upgraded_blob = choose|upgraded_blob: Option<Vec<u8>>| #[trigger]
                run.goes_to(
                    level,
                    work,
                    reply,
                    Upgrade::Done(Ok((Outcome::Created(m.created), upgraded_blob))),
                );
            let done = Upgrade::Done(Ok((Outcome::Created(m.created), upgraded_blob)));
            let after = run_after(next, run, level, work, reply);
            assert(run.goes_to(level, work, reply, done));
            assert(run.goes_to(level, work, reply, after));
            lemma_one_end(level, work, run, reply, done, after);
        },
        _ => {},
    }
}

/// A run ends in one way.
proof fn lemma_one_end(
    level: KeystoreSecurityLevel,
    work: Work,
    run: Upgrade,
    reply: Reply,
    one: Upgrade,
    other: Upgrade,
)
    requires
        run.goes_to(level, work, reply, one),
        run.goes_to(level, work, reply, other),
        one is Done,
        other is Done,
    ensures
        one == other,
{
}

proof fn lemma_beginning_holds(
    level: KeystoreSecurityLevel,
    request: KeyRequest,
    params: Vec<KeyParameter>,
    stage: GenerateKey,
    h: GenerationHeard,
    answers: Answers,
    reply: Reply,
    next: GenerateKey,
)
    requires
        generation_holds(level, request, params, stage, h, answers),
        stage.goes_to(level, reply, next),
        stage is Admitting || stage is Preferring || stage is FindingAttestKey,
    ensures
        generation_holds(
            level,
            request,
            params,
            next,
            h.heard(stage.asks(&level), reply),
            answers.heard(stage.asks(&level), reply),
        ),
{
    let heard = answers.heard(stage.asks(&level), reply);
    lemma_course(level, request.caller.uid, model(params@), heard);
    if let GenerateKey::Admitting(_, _, admission) = stage {
        lemma_admission_turn(request.key, h.count, admission, reply);
    }
}

proof fn lemma_completing_holds(
    level: KeystoreSecurityLevel,
    request: KeyRequest,
    params: Vec<KeyParameter>,
    stage: GenerateKey,
    h: GenerationHeard,
    answers: Answers,
    reply: Reply,
    next: GenerateKey,
)
    requires
        generation_holds(level, request, params, stage, h, answers),
        stage.goes_to(level, reply, next),
        stage is Completing,
    ensures
        generation_holds(
            level,
            request,
            params,
            next,
            h.heard(stage.asks(&level), reply),
            answers.heard(stage.asks(&level), reply),
        ),
{
    reveal(is_completed);
    let heard = answers.heard(stage.asks(&level), reply);
    lemma_course(level, request.caller.uid, model(params@), heard);
    if let GenerateKey::Completing(_, _, completing) = stage {
        lemma_step_on_course(
            level,
            request.caller.uid,
            model(params@),
            answers,
            completing@,
            request.key,
            reply,
        );
    }
}

#[verifier::rlimit(30)]
proof fn lemma_choosing_holds(
    level: KeystoreSecurityLevel,
    request: KeyRequest,
    params: Vec<KeyParameter>,
    stage: GenerateKey,
    h: GenerationHeard,
    answers: Answers,
    reply: Reply,
    next: GenerateKey,
)
    requires
        generation_holds(level, request, params, stage, h, answers),
        stage.goes_to(level, reply, next),
        stage is Tracking || stage is Comparing || stage is Choosing || stage is InSoftware,
    ensures
        generation_holds(
            level,
            request,
            params,
            next,
            h.heard(stage.asks(&level), reply),
            answers.heard(stage.asks(&level), reply),
        ),
{
    assert(answers.heard(stage.asks(&level), reply) == answers);
}

proof fn lemma_finding_holds(
    level: KeystoreSecurityLevel,
    request: KeyRequest,
    params: Vec<KeyParameter>,
    stage: GenerateKey,
    h: GenerationHeard,
    answers: Answers,
    reply: Reply,
    next: GenerateKey,
)
    requires
        generation_holds(level, request, params, stage, h, answers),
        stage.goes_to(level, reply, next),
        stage is FindingDevice || stage is NamingComponent,
    ensures
        generation_holds(
            level,
            request,
            params,
            next,
            h.heard(stage.asks(&level), reply),
            answers.heard(stage.asks(&level), reply),
        ),
{
    assert(answers.heard(stage.asks(&level), reply) == answers);
}

#[verifier::rlimit(30)]
proof fn lemma_plain_holds(
    level: KeystoreSecurityLevel,
    request: KeyRequest,
    params: Vec<KeyParameter>,
    stage: GenerateKey,
    h: GenerationHeard,
    answers: Answers,
    reply: Reply,
    next: GenerateKey,
)
    requires
        generation_holds(level, request, params, stage, h, answers),
        stage.goes_to(level, reply, next),
        stage is Plain,
    ensures
        generation_holds(
            level,
            request,
            params,
            next,
            h.heard(stage.asks(&level), reply),
            answers.heard(stage.asks(&level), reply),
        ),
{
    assert(answers.heard(stage.asks(&level), reply) == answers);
}

#[verifier::rlimit(30)]
proof fn lemma_asking_processor_holds(
    level: KeystoreSecurityLevel,
    request: KeyRequest,
    params: Vec<KeyParameter>,
    stage: GenerateKey,
    h: GenerationHeard,
    answers: Answers,
    reply: Reply,
    next: GenerateKey,
)
    requires
        generation_holds(level, request, params, stage, h, answers),
        stage.goes_to(level, reply, next),
        stage is AskingProcessor,
    ensures
        generation_holds(
            level,
            request,
            params,
            next,
            h.heard(stage.asks(&level), reply),
            answers.heard(stage.asks(&level), reply),
        ),
{
    assert(answers.heard(stage.asks(&level), reply) == answers);
    let heard = h.heard(stage.asks(&level), reply);
    if let GenerateKey::AskingProcessor(_, _) = stage {
        if let Reply::Decision(r) = reply {
            if r != Ok::<bool, Error>(true) {
                let m = next.made();
                assert(next == m.revised());
                assert(heard.made->0.certificate_chain == m.created.certificate_chain@);
                assert(heard.made == Some(material(m.created)));
                assert(heard == (GenerationHeard { made: heard.made, ..h }));
                assert(is_made(request, heard, m));
                assert(is_completed(level, model(params@), answers, m.params));
            } else {
                assert(heard == h);
            }
        } else {
            assert(heard == h);
        }
    }
}

#[verifier::rlimit(30)]
proof fn lemma_processing_holds(
    level: KeystoreSecurityLevel,
    request: KeyRequest,
    params: Vec<KeyParameter>,
    stage: GenerateKey,
    h: GenerationHeard,
    answers: Answers,
    reply: Reply,
    next: GenerateKey,
)
    requires
        generation_holds(level, request, params, stage, h, answers),
        stage.goes_to(level, reply, next),
        stage is Processing,
    ensures
        generation_holds(
            level,
            request,
            params,
            next,
            h.heard(stage.asks(&level), reply),
            answers.heard(stage.asks(&level), reply),
        ),
{
    assert(answers.heard(stage.asks(&level), reply) == answers);
    let heard = h.heard(stage.asks(&level), reply);
    if let GenerateKey::Processing(made, _) = stage {
        if let Reply::Chain(certificate_chain) = reply {
            let m = Made {
                created: KeyCreationResult { certificate_chain, ..made.created },
                ..made
            };
            assert(next == m.revised());
            assert(heard.made == Some(material(m.created)));
            assert(heard == (GenerationHeard { made: heard.made, ..h }));
            assert(is_made(request, heard, m));
        } else {
            assert(heard == h);
        }
    }
}

#[verifier::rlimit(30)]
proof fn lemma_made_holds(
    level: KeystoreSecurityLevel,
    request: KeyRequest,
    params: Vec<KeyParameter>,
    stage: GenerateKey,
    h: GenerationHeard,
    answers: Answers,
    reply: Reply,
    next: GenerateKey,
)
    requires
        generation_holds(level, request, params, stage, h, answers),
        stage.goes_to(level, reply, next),
        stage is Overriding || stage is Syncing || stage is Marking,
    ensures
        generation_holds(
            level,
            request,
            params,
            next,
            h.heard(stage.asks(&level), reply),
            answers.heard(stage.asks(&level), reply),
        ),
{
    assert(answers.heard(stage.asks(&level), reply) == answers);
}

proof fn lemma_generation_holds_step(
    level: KeystoreSecurityLevel,
    request: KeyRequest,
    params: Vec<KeyParameter>,
    stage: GenerateKey,
    h: GenerationHeard,
    answers: Answers,
    reply: Reply,
    next: GenerateKey,
)
    requires
        generation_holds(level, request, params, stage, h, answers),
        stage.goes_to(level, reply, next),
    ensures
        generation_holds(
            level,
            request,
            params,
            next,
            h.heard(stage.asks(&level), reply),
            answers.heard(stage.asks(&level), reply),
        ),
{
    match stage {
        GenerateKey::Admitting(_, _, _)
        | GenerateKey::Preferring(_, _)
        | GenerateKey::FindingAttestKey(_, _) => {
            lemma_beginning_holds(level, request, params, stage, h, answers, reply, next);
        },
        GenerateKey::Completing(_, _, _) => {
            lemma_completing_holds(level, request, params, stage, h, answers, reply, next);
        },
        GenerateKey::Tracking(_, _, _)
        | GenerateKey::Comparing(_, _, _)
        | GenerateKey::Choosing(_, _)
        | GenerateKey::InSoftware(_, _) => {
            lemma_choosing_holds(level, request, params, stage, h, answers, reply, next);
        },
        GenerateKey::FindingDevice(_, _, _) | GenerateKey::NamingComponent { .. } => {
            lemma_finding_holds(level, request, params, stage, h, answers, reply, next);
        },
        GenerateKey::Attesting { .. } | GenerateKey::Provisioned { .. } => {
            lemma_attesting_holds(level, request, params, stage, h, answers, reply, next);
        },
        GenerateKey::Plain(_, _) => {
            lemma_plain_holds(level, request, params, stage, h, answers, reply, next);
        },
        GenerateKey::Storing(_) | GenerateKey::Done(_) => {},
        GenerateKey::AskingProcessor(_, _) => {
            lemma_asking_processor_holds(level, request, params, stage, h, answers, reply, next);
        },
        GenerateKey::Processing(_, _) => {
            lemma_processing_holds(level, request, params, stage, h, answers, reply, next);
        },
        _ => {
            lemma_made_holds(level, request, params, stage, h, answers, reply, next);
        },
    }
}

proof fn lemma_generation_holds(
    level: KeystoreSecurityLevel,
    request: KeyRequest,
    params: Vec<KeyParameter>,
    stages: Seq<GenerateKey>,
    replies: Seq<Reply>,
    n: int,
)
    requires
        GenerateKey::run(level, stages, replies),
        stages[0] == GenerateKey::Admitting(request, params, Admission::of(request.key)),
        0 <= n < stages.len(),
    ensures
        generation_holds(
            level,
            request,
            params,
            stages[n],
            GenerateKey::heard_in(level, stages, replies, n),
            GenerateKey::answers(level, stages, replies, n),
        ),
    decreases n,
{
    lemma_admission_turn(request.key, None, Admission::of(request.key), Reply::Returned);
    if n > 0 {
        lemma_generation_holds(level, request, params, stages, replies, n - 1);
        let _ = replies[n - 1];
        assert(stages[n - 1].goes_to(level, replies[n - 1], stages[n]));
        lemma_generation_holds_step(
            level,
            request,
            params,
            stages[n - 1],
            GenerateKey::heard_in(level, stages, replies, n - 1),
            GenerateKey::answers(level, stages, replies, n - 1),
            replies[n - 1],
            stages[n],
        );
    }
}

/// The attestation key that a request names is the one that the caller gave, if they gave one.
pub open spec fn names(named: Option<&KeyDescriptor>, given: Option<KeyDescriptor>) -> bool {
    match (named, given) {
        (Some(named), Some(given)) => *named == given,
        (None, None) => true,
        _ => false,
    }
}

/// The alias that a request carries is that of the key.
pub open spec fn is_alias_of(alias: Option<&String>, key: KeyDescriptor) -> bool {
    match (alias, key.alias) {
        (Some(alias), Some(given)) => *alias == given,
        (None, None) => true,
        _ => false,
    }
}

/// What a request of a generation carries, where the key is meant as `key`.
pub open spec fn carries(
    level: KeystoreSecurityLevel,
    caller: Caller,
    key: KeyDescriptor,
    attest_key: Option<KeyDescriptor>,
    params: Vec<KeyParameter>,
    h: GenerationHeard,
    answers: Answers,
    asked: Request,
) -> bool {
    let ps = model(params@);
    match asked {
        Request::PreferLocalAttestKeyFlow { uid, params: p, has_attest_key } => {
            &&& uid == caller.uid
            &&& *p == params
            &&& has_attest_key == attest_key is Some
        },
        Request::AttestKeyInfo { key: k, uid, attest_key: named, params: p } => {
            &&& *k == key
            &&& uid == caller.uid
            &&& names(named, attest_key)
            &&& *p == params
        },
        Request::UsesTrackedAttestKey { uid, attest_key: named } => {
            &&& uid == caller.uid
            &&& names(named, attest_key)
        },
        Request::TreatExternalAttestKeyAsCompat { uid, params: p, attest_key: named } => {
            &&& uid == caller.uid
            &&& is_whole(level, ps, answers, *p)
            &&& names(named, attest_key)
        },
        Request::ForceSoftwareGeneration {
            uid,
            params: p,
            has_external_attestation_key,
            uses_tracked_attest_key,
        } => {
            &&& uid == caller.uid
            &&& is_whole(level, ps, answers, *p)
            &&& has_external_attestation_key == h.is_users()
            &&& uses_tracked_attest_key == (h.tracks || h.treats)
        },
        Request::GenerateSoftwareKey { uid, params: p, alias } => {
            &&& uid == caller.uid
            &&& is_whole(level, ps, answers, *p)
            &&& is_alias_of(alias, key)
        },
        Request::KeyMintByUuid { uuid } => {
            &&& h.found matches Some(AttestationKeyInfo::UserGenerated { blob_metadata, .. })
            &&& blob_metadata.km_uuid == Some(uuid)
        },
        Request::RemotelyProvisionedComponentName { security_level } => security_level
            == level.security_level,
        Request::ProcessCertificateChain { chain, attestation_certs } => {
            &&& h.made matches Some(made)
            &&& chain@ == made.certificate_chain
            &&& h.found matches Some(
                AttestationKeyInfo::RkpdProvisioned { attestation_certs: certs, .. },
            )
            &&& *attestation_certs == certs
        },
        Request::GenerateKey { device, params: p, attest_key: None } => {
            &&& device == Device::Own
            &&& h.found is None
            &&& if h.run.tries == 0 {
                is_whole(level, ps, answers, *p)
            } else {
                model(p@) == swapped_imeis(answers.whole(level, ps))
            }
        },
        Request::OverrideCertificateChain {
            uid,
            params: p,
            has_external_attestation_key,
            uses_tracked_attest_key,
            alias,
            attest_key: named,
            creation_result,
        } => {
            &&& uid == caller.uid
            &&& is_whole(level, ps, answers, *p)
            &&& has_external_attestation_key == (h.is_users() && !h.in_software)
            &&& uses_tracked_attest_key == (h.tracks || h.treats)
            &&& is_alias_of(alias, key)
            &&& names(named, attest_key)
            &&& h.made == Some(material(*creation_result))
        },
        Request::SyncPatchlevelAuthorizations { uid, creation_result, params: p } => {
            &&& uid == caller.uid
            &&& h.made == Some(material(*creation_result))
            &&& is_whole(level, ps, answers, *p)
        },
        Request::MarkGeneratedAttestKey { uid, key: k, params: p, used_software_generation } => {
            &&& uid == caller.uid
            &&& *k == key
            &&& match h.synced {
                Some(synced) => *p == synced,
                None => is_whole(level, ps, answers, *p),
            }
            &&& used_software_generation == h.in_software
        },
        _ => true,
    }
}

/// The work of the device and the run of it that are under way.
pub open spec fn under_way<'a>(stage: &'a GenerateKey) -> Option<(Work<'a>, Upgrade)> {
    match stage {
        GenerateKey::Attesting { making, device, version, issuer_subject, run } => Some(
            (
                Work::GenerateAttested {
                    device: *device,
                    version: *version,
                    params: &making.params,
                    issuer_subject,
                },
                *run,
            ),
        ),
        GenerateKey::Provisioned { making, issuer_subject, run, .. } => Some(
            (Work::GenerateProvisioned { params: &making.params, issuer_subject }, *run),
        ),
        _ => None,
    }
}

/// What follows once the completion of the parameters stands here: once they are whole, it is
/// asked whether the attestation key is tracked.
pub open spec fn goes_on_with(
    level: KeystoreSecurityLevel,
    next: GenerateKey,
    key: KeyDescriptor,
    completion: Completion,
) -> bool {
    match completion {
        Completion::Done(Ok(_)) => next.asks(&level) is UsesTrackedAttestKey,
        Completion::Done(Err(e)) => next == GenerateKey::Done(Err(e)),
        _ => {
            &&& next matches GenerateKey::Completing(_, _, completing)
            &&& completing@ == completion
            &&& next.asks(&level) == completion.asks(&key)
        },
    }
}

/// What is asked where a device makes the key: for the attestation key of the caller, which device
/// has that key, if one is noted; for a provisioned one, which component provisioned it; and
/// without one, for the key itself.
pub open spec fn goes_to_the_device(
    found: Option<AttestationKeyInfo>,
    asked: Request,
) -> bool {
    match found {
        Some(AttestationKeyInfo::UserGenerated { blob_metadata, .. }) => {
            if blob_metadata.km_uuid is Some {
                asked is KeyMintByUuid
            } else {
                asked is RunWithUpgrade
            }
        },
        Some(AttestationKeyInfo::RkpdProvisioned { .. }) => {
            asked is RemotelyProvisionedComponentName
        },
        None => asked matches Request::GenerateKey { attest_key: None, .. },
    }
}

/// What is asked once the key is made: of one that was challenged, which certificate chain the app
/// is to see; of another, that it be noted.
pub open spec fn goes_on_with_the_key(whole: Seq<Param>, asked: Request) -> bool {
    if lacks(whole, Tag::AttestationChallenge) {
        asked is MarkGeneratedAttestKey
    } else {
        asked is OverrideCertificateChain
    }
}

/// One turn of the dialogue at a stage that is not part of another dialogue.
pub open spec fn generation_turn(
    level: KeystoreSecurityLevel,
    caller: Caller,
    key: KeyDescriptor,
    params: Vec<KeyParameter>,
    flags: i32,
    h: GenerationHeard,
    answers: Answers,
    stage: GenerateKey,
    reply: Reply,
    next: GenerateKey,
) -> bool {
    let ps = model(params@);
    let whole = answers.whole(level, ps);
    let asked = next.asks(&level);
    match (stage.asks(&level), reply) {
        (Request::PreferLocalAttestKeyFlow { .. }, Reply::Flag(local)) => {
            if local || key.domain == Domain::Blob {
                goes_on_with(level, next, key, Completion::of(caller.uid, ps))
            } else {
                asked is AttestKeyInfo
            }
        },
        (Request::AttestKeyInfo { .. }, Reply::AttestKey(Ok(_))) => goes_on_with(
            level,
            next,
            key,
            Completion::of(caller.uid, ps),
        ),
        (Request::AttestKeyInfo { .. }, Reply::AttestKey(Err(e))) => next == GenerateKey::Done(
            Err(e),
        ),
        (Request::UsesTrackedAttestKey { .. }, Reply::Flag(tracks)) => if tracks {
            asked is ForceSoftwareGeneration
        } else {
            asked is TreatExternalAttestKeyAsCompat
        },
        (Request::TreatExternalAttestKeyAsCompat { .. }, Reply::Flag(_)) => {
            asked is ForceSoftwareGeneration
        },
        (Request::ForceSoftwareGeneration { .. }, Reply::Flag(forced)) => if forced {
            asked is GenerateSoftwareKey
        } else {
            goes_to_the_device(h.found, asked)
        },
        (Request::GenerateSoftwareKey { .. }, Reply::Software(Ok(Some(_)))) => {
            goes_on_with_the_key(whole, asked)
        },
        (Request::GenerateSoftwareKey { .. }, Reply::Software(_)) => goes_to_the_device(
            h.found,
            asked,
        ),
        (Request::KeyMintByUuid { .. }, Reply::DeviceVersion(_)) => asked is RunWithUpgrade,
        (Request::RemotelyProvisionedComponentName { .. }, Reply::Name(Ok(_))) => {
            asked is RunWithUpgrade
        },
        (Request::RemotelyProvisionedComponentName { .. }, Reply::Name(Err(e))) => next
            == GenerateKey::Done(Err(e)),
        (Request::UseCertProcessor, Reply::Decision(r)) => if r == Ok::<bool, Error>(true) {
            asked is ProcessCertificateChain
        } else {
            goes_on_with_the_key(whole, asked)
        },
        (Request::ProcessCertificateChain { .. }, Reply::Chain(_)) => goes_on_with_the_key(
            whole,
            asked,
        ),
        (Request::GenerateKey { params: p, attest_key: None, .. }, Reply::Created(r)) => {
            if h.run.tries == 0 && mismatches(level, p@, r) {
                asked matches Request::GenerateKey { attest_key: None, .. }
            } else {
                match r {
                    Ok(_) => goes_on_with_the_key(whole, asked),
                    Err(e) => next == GenerateKey::Done(Err(e)),
                }
            }
        },
        (Request::OverrideCertificateChain { .. }, Reply::Revised(_)) => {
            asked is SyncPatchlevelAuthorizations
        },
        (Request::SyncPatchlevelAuthorizations { .. }, Reply::Parameters(_)) => {
            asked is MarkGeneratedAttestKey
        },
        (Request::MarkGeneratedAttestKey { .. }, Reply::Returned) => {
            &&& next matches GenerateKey::Storing(store)
            &&& exists|created: KeyCreationResult|
                h.made == Some(material(created)) && #[trigger] store.starts(
                    key,
                    created,
                    caller.user,
                    Some(flags),
                )
            &&& asked == store.asks(&level)
        },
        _ => next == stage,
    }
}

/// One step of a generation that is not part of another dialogue is one turn.
#[verifier::rlimit(30)]
proof fn lemma_generation_turn(
    level: KeystoreSecurityLevel,
    request: KeyRequest,
    params: Vec<KeyParameter>,
    h: GenerationHeard,
    answers: Answers,
    stage: GenerateKey,
    reply: Reply,
    next: GenerateKey,
)
    requires
        generation_holds(level, request, params, stage, h, answers),
        stage.goes_to(level, reply, next),
        !(stage is Admitting),
        !(stage is Completing),
        !(stage is Attesting),
        !(stage is Provisioned),
        !(stage is Storing),
    ensures
        generation_turn(
            level,
            request.caller,
            request.key,
            params,
            request.flags,
            h,
            answers,
            stage,
            reply,
            next,
        ),
{
    reveal(is_completed);
    let whole = answers.whole(level, model(params@));
    law_tags_are_found_wherever_they_stand(
        whole,
        Tag::AttestationChallenge,
        level.rules.imei_tags@,
        Algorithm::Rsa,
    );
    if let GenerateKey::Plain(making, _) = stage {
        lemma_imei_asked_for(making.params@, level.rules.imei_tags@);
    }
}

/// One step of a run for an attestation key is one turn of the dialogue of the run.
proof fn lemma_run_of_generation(
    level: KeystoreSecurityLevel,
    request: KeyRequest,
    params: Vec<KeyParameter>,
    h: GenerationHeard,
    answers: Answers,
    stage: GenerateKey,
    reply: Reply,
    next: GenerateKey,
)
    requires
        generation_holds(level, request, params, stage, h, answers),
        stage.goes_to(level, reply, next),
        under_way(&stage) is Some,
    ensures
        under_way(&stage) matches Some((work, run)) && {
            let after = run_after(next, run, level, work, reply);
            let whole = answers.whole(level, model(params@));
            &&& run_turn(level, work, h.run_on_attest_key(), h.run, run, reply, after)
            &&& match after {
                Upgrade::Done(Ok((Outcome::Created(_), _))) => if h.is_users() {
                    goes_on_with_the_key(whole, next.asks(&level))
                } else {
                    next.asks(&level) is UseCertProcessor
                },
                Upgrade::Done(Err(e)) => next == GenerateKey::Done(Err(e)),
                _ => under_way(&next) == Some((work, after)),
            }
        },
{
    reveal(is_completed);
    let (work, run) = under_way(&stage)->0;
    let whole = answers.whole(level, model(params@));
    let after = run_after(next, run, level, work, reply);
    law_tags_are_found_wherever_they_stand(
        whole,
        Tag::AttestationChallenge,
        level.rules.imei_tags@,
        Algorithm::Rsa,
    );
    lemma_attesting_ends(level, next, run, work, reply, stage);
    lemma_run_turn(level, work, h.run_on_attest_key(), h.run, run, reply, after);
    lemma_outcome(level, work, h, run, reply, after);
}

/// What each request of a generation carries, said of the arguments of the caller and of what was
/// heard before: the key is the one that the caller means, the attestation key exactly the one
/// that they gave, and the parameters are those that they gave, until they are completed, and then
/// the completed ones. A device that works for an attestation key works on the blob that was
/// found.
pub proof fn law_generation_asks_for_this_key(
    level: KeystoreSecurityLevel,
    caller: Caller,
    key: KeyDescriptor,
    attest_key: Option<KeyDescriptor>,
    params: Vec<KeyParameter>,
    flags: i32,
    stages: Seq<GenerateKey>,
    replies: Seq<Reply>,
    n: int,
)
    requires
        GenerateKey::run(level, stages, replies),
        stages[0].starts(caller, key, attest_key, params, flags),
        key.domain == Domain::Blob || key.alias is Some,
        0 <= n < stages.len(),
    ensures
        ({
            let meant = bound_to(key, caller.uid);
            let h = GenerateKey::heard_in(level, stages, replies, n);
            let answers = GenerateKey::answers(level, stages, replies, n);
            let asked = stages[n].asks(&level);
            &&& carries(level, caller, meant, attest_key, params, h, answers, asked)
            &&& under_way(&stages[n]) matches Some((work, run)) ==> {
                &&& h.is_work(level, model(params@), answers, work)
                &&& asked == run.asks(&level, work)
                &&& h.run.holds(work, h.run_on_attest_key(), run)
                &&& asked is RunWithUpgrade ==> asks_runner(
                    level,
                    asked,
                    work,
                    h.run_on_attest_key(),
                )
            }
        }),
{
    reveal(is_completed);
    let request = KeyRequest { caller, key: bound_to(key, caller.uid), attest_key, flags };
    lemma_generation_holds(level, request, params, stages, replies, n);
}

/// A generation, turn by turn, from its arguments. A name that cannot be one is refused at once.
/// The key is admitted; the key that signs its attestation is looked up, unless that is skipped or
/// the key is handed out as a blob; the parameters are completed; the key is made, in software
/// where that is forced and works, and else by the device that the attestation key asks for; a
/// challenged key may get another certificate chain; and the key is noted and stored under the
/// name that the caller means, for the caller's user and with the caller's flags.
pub proof fn law_generation_in_turn(
    level: KeystoreSecurityLevel,
    caller: Caller,
    key: KeyDescriptor,
    attest_key: Option<KeyDescriptor>,
    params: Vec<KeyParameter>,
    flags: i32,
    stages: Seq<GenerateKey>,
    replies: Seq<Reply>,
    n: int,
)
    requires
        GenerateKey::run(level, stages, replies),
        stages[0].starts(caller, key, attest_key, params, flags),
        0 <= n < replies.len(),
    ensures
        key.domain != Domain::Blob && key.alias is None ==> stages[n + 1] == GenerateKey::Done(
            Err(Error::Km(ErrorCode::InvalidArgument)),
        ),
        key.domain == Domain::Blob || key.alias is Some ==> {
            let meant = bound_to(key, caller.uid);
            let ps = model(params@);
            let h = GenerateKey::heard_in(level, stages, replies, n);
            let answers = GenerateKey::answers(level, stages, replies, n);
            let stage = stages[n];
            let next = stages[n + 1];
            let reply = replies[n];
            let asked = next.asks(&level);
            &&& stages[0].asks(&level) == Request::LimitKeysPerUid
            &&& match stage {
                GenerateKey::Admitting(_, _, admission) => {
                    let after = admission.after(reply);
                    &&& stage.asks(&level) == admission.asks(&meant)
                    &&& admission_turn(meant, h.count, admission, reply, after)
                    &&& match after {
                        Admission::Done(Ok(_)) => asked is PreferLocalAttestKeyFlow,
                        Admission::Done(Err(e)) => next == GenerateKey::Done(Err(e)),
                        _ => next matches GenerateKey::Admitting(_, _, a) && a == after,
                    }
                },
                GenerateKey::Completing(_, _, completing) => {
                    let after = completing@.after(level, reply);
                    &&& stage.asks(&level) == completing@.asks(&meant)
                    &&& completion_turn(
                        level,
                        caller.uid,
                        ps,
                        meant,
                        answers.clock,
                        completing@,
                        reply,
                        after,
                    )
                    &&& goes_on_with(level, next, meant, after)
                },
                GenerateKey::Attesting { .. } | GenerateKey::Provisioned { .. } => {
                    &&& under_way(&stage) matches Some((work, run))
                    &&& {
                        let after = run_after(next, run, level, work, reply);
                        &&& run_turn(
                            level,
                            work,
                            h.run_on_attest_key(),
                            h.run,
                            run,
                            reply,
                            after,
                        )
                        &&& match after {
                            Upgrade::Done(Ok((Outcome::Created(_), _))) => if h.is_users() {
                                goes_on_with_the_key(answers.whole(level, ps), asked)
                            } else {
                                asked is UseCertProcessor
                            },
                            Upgrade::Done(Err(e)) => next == GenerateKey::Done(Err(e)),
                            _ => under_way(&next) == Some((work, after)),
                        }
                    }
                },
                GenerateKey::Storing(store) => {
                    &&& stage.asks(&level) == store.asks(&level)
                    &&& match next {
                        GenerateKey::Storing(s) => store.goes_to(level, reply, s),
                        GenerateKey::Done(r) => store.goes_to(level, reply, StoreNewKey::Done(r)),
                        _ => false,
                    }
                },
                GenerateKey::Done(_) => next == stage,
                _ => generation_turn(
                    level,
                    caller,
                    meant,
                    params,
                    flags,
                    h,
                    answers,
                    stage,
                    reply,
                    next,
                ),
            }
        },
    decreases n,
{
    let meant = bound_to(key, caller.uid);
    let reply = replies[n];
    let stage = stages[n];
    let next = stages[n + 1];
    assert(stage.goes_to(level, reply, next));
    if key.domain != Domain::Blob && key.alias is None {
        if n > 0 {
            law_generation_in_turn(
                level,
                caller,
                key,
                attest_key,
                params,
                flags,
                stages,
                replies,
                n - 1,
            );
        }
    } else {
        let request = KeyRequest { caller, key: meant, attest_key, flags };
        let h = GenerateKey::heard_in(level, stages, replies, n);
        let answers = GenerateKey::answers(level, stages, replies, n);
        lemma_generation_holds(level, request, params, stages, replies, n);
        lemma_admission_turn(meant, None, Admission::of(meant), reply);
        match stage {
            GenerateKey::Admitting(_, _, admission) => {
                lemma_admission_turn(meant, h.count, admission, reply);
            },
            GenerateKey::Completing(_, _, completing) => {
                lemma_completion_turn(
                    level,
                    caller.uid,
                    model(params@),
                    meant,
                    answers,
                    completing@,
                    reply,
                );
            },
            GenerateKey::Attesting { .. } | GenerateKey::Provisioned { .. } => {
                lemma_run_of_generation(level, request, params, h, answers, stage, reply, next);
            },
            GenerateKey::Storing(_) => {},
            _ => {
                lemma_generation_turn(level, request, params, h, answers, stage, reply, next);
            },
        }
    }
}

} // verus!
