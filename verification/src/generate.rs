//! The generation of a key.

use vstd::prelude::*;
use crate::admission::Admission;
use crate::level::{bound_to, names_new_key, new_key_descriptor, KeystoreSecurityLevel};
use crate::params::{contains_tag, has_tag};
use crate::request::{Outcome, Reply, Request};
use crate::required::{AddRequired, Completion};
use crate::retry::GenerateRetry;
use crate::store::StoreNewKey;
use crate::types::{
    model, AttestationKeyInfo, Caller, Certificate, Device, Domain, Error, ErrorCode, KeyBlob,
    KeyCreationResult, KeyDescriptor, KeyMetadata, KeyParameter, Tag, Uuid,
};
use crate::upgrade::{plain_blob, Run, Target, Upgrade, Work};
use crate::wrapped::created_or_failed;

verus! {

/// What the caller asked for, but for the parameters.
pub struct KeyRequest {
    pub caller: Caller,
    /// The new key, as the caller means it.
    pub key: KeyDescriptor,
    /// The key that is to sign the attestation, if the caller named one.
    pub attest_key: Option<KeyDescriptor>,
    pub flags: i32,
}

/// A key that is being made, with the whole list of its parameters.
pub struct Making {
    pub request: KeyRequest,
    pub params: Vec<KeyParameter>,
    /// Whether its attestation key is tracked, or treated so.
    pub uses_tracked_key: bool,
}

/// A key that was made.
pub struct Made {
    pub request: KeyRequest,
    pub params: Vec<KeyParameter>,
    pub uses_tracked_key: bool,
    /// Whether a key of the caller's own signed its attestation.
    pub externally_attested: bool,
    /// Whether it was made in software.
    pub in_software: bool,
    pub created: KeyCreationResult,
}

/// A key of the caller's own that signs an attestation.
pub struct Attester {
    pub key_id: i64,
    pub blob: Vec<u8>,
    pub km_uuid: Option<Uuid>,
    pub issuer_subject: Vec<u8>,
}

/// The generation of a key.
pub enum GenerateKey {
    /// May the caller have a new key of that name?
    Admitting(KeyRequest, Vec<KeyParameter>, Admission),
    /// Is the lookup of an attestation key skipped?
    Preferring(KeyRequest, Vec<KeyParameter>),
    /// Which key signs the attestation?
    FindingAttestKey(KeyRequest, Vec<KeyParameter>),
    /// The parameters are completed.
    Completing(KeyRequest, Option<AttestationKeyInfo>, AddRequired),
    /// Is the attestation key tracked?
    Tracking(KeyRequest, Vec<KeyParameter>, Option<AttestationKeyInfo>),
    /// Or is it treated so?
    Comparing(KeyRequest, Vec<KeyParameter>, Option<AttestationKeyInfo>),
    /// Is the key made in software?
    Choosing(Making, Option<AttestationKeyInfo>),
    /// It is made in software, if that works.
    InSoftware(Making, Option<AttestationKeyInfo>),
    /// Which device holds the caller's attestation key?
    FindingDevice(Making, Attester, Uuid),
    /// A device makes the key, and the caller's key signs its attestation.
    Attesting {
        making: Making,
        device: Device,
        version: i32,
        issuer_subject: Vec<u8>,
        run: Upgrade,
    },
    /// Which component provisioned the attestation key?
    NamingComponent {
        making: Making,
        key_blob: Vec<u8>,
        issuer_subject: Vec<u8>,
        attestation_certs: Vec<u8>,
    },
    /// The device makes the key, and a provisioned key signs its attestation.
    Provisioned {
        making: Making,
        issuer_subject: Vec<u8>,
        attestation_certs: Vec<u8>,
        run: Upgrade,
    },
    /// Does the certificate chain go through the post-processor?
    AskingProcessor(Made, Vec<u8>),
    /// It does.
    Processing(Made, Vec<u8>),
    /// The device makes the key without a key for its attestation.
    Plain(Making, GenerateRetry),
    /// Which certificate chain is the app to see?
    Overriding(Made),
    /// Which patch levels follow from it?
    Syncing(Made),
    /// The new key is noted, in case it signs attestations.
    Marking(Made),
    /// The new key is stored.
    Storing(StoreNewKey),
    Done(Result<KeyMetadata, Error>),
}

/// The attestation is to be signed by a key of the caller's own.
pub open spec fn is_external(info: Option<AttestationKeyInfo>) -> bool {
    info is Some && info->0 is UserGenerated
}

/// The alias of a new key.
pub open spec fn alias_of(key: &KeyDescriptor) -> Option<&String> {
    match &key.alias {
        Some(alias) => Some(alias),
        None => None,
    }
}

/// The attestation key that the caller named.
pub open spec fn named_attest_key(request: &KeyRequest) -> Option<&KeyDescriptor> {
    match &request.attest_key {
        Some(key) => Some(key),
        None => None,
    }
}

impl Making {
    /// The work of the device that makes the key for the caller's attestation key.
    pub open spec fn attested_work<'a>(
        &'a self,
        device: Device,
        version: i32,
        issuer_subject: &'a Vec<u8>,
    ) -> Work<'a> {
        Work::GenerateAttested { device, version, params: &self.params, issuer_subject }
    }

    /// The work of the device that makes the key for a provisioned attestation key.
    pub open spec fn provisioned_work<'a>(&'a self, issuer_subject: &'a Vec<u8>) -> Work<'a> {
        Work::GenerateProvisioned { params: &self.params, issuer_subject }
    }

    /// The key that was made.
    pub open spec fn done(
        self,
        created: KeyCreationResult,
        externally_attested: bool,
        in_software: bool,
    ) -> Made {
        Made {
            request: self.request,
            params: self.params,
            uses_tracked_key: self.uses_tracked_key,
            externally_attested,
            in_software,
            created,
        }
    }
}

impl Attester {
    /// The run in which this key signs an attestation: an upgraded blob of it is stored.
    pub open spec fn run(self) -> Upgrade {
        Upgrade::Running(
            Run {
                key_blob: plain_blob(self.blob),
                target: Target::Stored { key_id: Some(self.key_id), km_uuid: self.km_uuid },
            },
        )
    }
}

impl Made {
    /// What follows once the key is made: an attested key may get another certificate chain.
    pub open spec fn revised(self) -> GenerateKey {
        if has_tag(model(self.params@), Tag::AttestationChallenge) {
            GenerateKey::Overriding(self)
        } else {
            GenerateKey::Marking(self)
        }
    }
}

impl GenerateKey {
    /// The generation stands at its start.
    pub open spec fn starts(
        self,
        caller: Caller,
        key: KeyDescriptor,
        attest_key: Option<KeyDescriptor>,
        params: Vec<KeyParameter>,
        flags: i32,
    ) -> bool {
        self == if names_new_key(key) {
            let key = bound_to(key, caller.uid);
            GenerateKey::Admitting(
                KeyRequest { caller, key, attest_key, flags },
                params,
                Admission::of(key),
            )
        } else {
            GenerateKey::Done(Err(Error::Km(ErrorCode::InvalidArgument)))
        }
    }

    /// The completion of the parameters stands at `completion`, and `self` is what follows.
    pub open spec fn follows_completion(
        self,
        request: KeyRequest,
        info: Option<AttestationKeyInfo>,
        completion: Completion,
    ) -> bool {
        match completion {
            Completion::Done(Ok(ps)) => {
                &&& self matches GenerateKey::Tracking(r, params, i)
                &&& r == request
                &&& model(params@) == ps
                &&& i == info
            },
            Completion::Done(Err(e)) => self == GenerateKey::Done(Err(e)),
            _ => {
                &&& self matches GenerateKey::Completing(r, i, completing)
                &&& r == request
                &&& i == info
                &&& completing@ == completion
            },
        }
    }

    /// What follows where a device makes the key.
    pub open spec fn on_device(
        level: KeystoreSecurityLevel,
        making: Making,
        info: Option<AttestationKeyInfo>,
    ) -> GenerateKey {
        match info {
            Some(
                AttestationKeyInfo::UserGenerated { key_id, blob, blob_metadata, issuer_subject },
            ) => {
                let attester = Attester {
                    key_id,
                    blob,
                    km_uuid: blob_metadata.km_uuid,
                    issuer_subject,
                };
                match blob_metadata.km_uuid {
                    Some(uuid) => GenerateKey::FindingDevice(making, attester, uuid),
                    None => GenerateKey::attesting(
                        making,
                        attester,
                        Device::Own,
                        level.hw_info.version_number,
                    ),
                }
            },
            Some(
                AttestationKeyInfo::RkpdProvisioned { key_blob, issuer_subject, attestation_certs },
            ) => GenerateKey::NamingComponent {
                making,
                key_blob,
                issuer_subject,
                attestation_certs,
            },
            None => GenerateKey::Plain(making, GenerateRetry::First),
        }
    }

    /// What follows where the caller's key signs the attestation, on the device that holds it.
    pub open spec fn attesting(
        making: Making,
        attester: Attester,
        device: Device,
        version: i32,
    ) -> GenerateKey {
        GenerateKey::Attesting {
            making,
            device,
            version,
            issuer_subject: attester.issuer_subject,
            run: attester.run(),
        }
    }

    /// The key that was made, where `self` is what follows that.
    pub open spec fn made(self) -> Made {
        match self {
            GenerateKey::Overriding(made) => made,
            GenerateKey::Marking(made) => made,
            _ => arbitrary(),
        }
    }

    /// What the generation waits for.
    pub open spec fn asks<'a>(&'a self, level: &KeystoreSecurityLevel) -> Request<'a> {
        match self {
            GenerateKey::Admitting(request, _, admission) => admission.asks(&request.key),
            GenerateKey::Preferring(request, params) => Request::PreferLocalAttestKeyFlow {
                uid: request.caller.uid,
                params,
                has_attest_key: request.attest_key is Some,
            },
            GenerateKey::FindingAttestKey(request, params) => Request::AttestKeyInfo {
                key: &request.key,
                uid: request.caller.uid,
                attest_key: named_attest_key(request),
                params,
            },
            GenerateKey::Completing(request, _, completing) => completing@.asks(&request.key),
            GenerateKey::Tracking(request, _, _) => Request::UsesTrackedAttestKey {
                uid: request.caller.uid,
                attest_key: named_attest_key(request),
            },
            GenerateKey::Comparing(request, params, _) => Request::TreatExternalAttestKeyAsCompat {
                uid: request.caller.uid,
                params,
                attest_key: named_attest_key(request),
            },
            GenerateKey::Choosing(making, info) => Request::ForceSoftwareGeneration {
                uid: making.request.caller.uid,
                params: &making.params,
                has_external_attestation_key: is_external(*info),
                uses_tracked_attest_key: making.uses_tracked_key,
            },
            GenerateKey::InSoftware(making, _) => Request::GenerateSoftwareKey {
                uid: making.request.caller.uid,
                params: &making.params,
                alias: alias_of(&making.request.key),
            },
            GenerateKey::FindingDevice(_, _, uuid) => Request::KeyMintByUuid { uuid: *uuid },
            GenerateKey::Attesting { making, device, version, issuer_subject, run } => run.asks(
                level,
                making.attested_work(*device, *version, issuer_subject),
            ),
            GenerateKey::NamingComponent { .. } => Request::RemotelyProvisionedComponentName {
                security_level: level.security_level,
            },
            GenerateKey::Provisioned { making, issuer_subject, run, .. } => run.asks(
                level,
                making.provisioned_work(issuer_subject),
            ),
            GenerateKey::AskingProcessor(_, _) => Request::UseCertProcessor,
            GenerateKey::Processing(made, attestation_certs) => Request::ProcessCertificateChain {
                chain: &made.created.certificate_chain,
                attestation_certs,
            },
            GenerateKey::Plain(making, retry) => retry.asks(&making.params, None),
            GenerateKey::Overriding(made) => Request::OverrideCertificateChain {
                uid: made.request.caller.uid,
                params: &made.params,
                has_external_attestation_key: made.externally_attested,
                uses_tracked_attest_key: made.uses_tracked_key,
                alias: alias_of(&made.request.key),
                attest_key: named_attest_key(&made.request),
                creation_result: &made.created,
            },
            GenerateKey::Syncing(made) => Request::SyncPatchlevelAuthorizations {
                uid: made.request.caller.uid,
                creation_result: &made.created,
                params: &made.params,
            },
            GenerateKey::Marking(made) => Request::MarkGeneratedAttestKey {
                uid: made.request.caller.uid,
                key: &made.request.key,
                params: &made.params,
                used_software_generation: made.in_software,
            },
            GenerateKey::Storing(store) => store.asks(level),
            GenerateKey::Done(_) => Request::Nothing,
        }
    }

    /// The generation stands at `next` after a reply.
    pub open spec fn goes_to(
        self,
        level: KeystoreSecurityLevel,
        reply: Reply,
        next: GenerateKey,
    ) -> bool {
        match self {
            GenerateKey::Admitting(request, params, admission) => next == match admission.after(
                reply,
            ) {
                Admission::Done(Ok(())) => GenerateKey::Preferring(request, params),
                Admission::Done(Err(e)) => GenerateKey::Done(Err(e)),
                admission => GenerateKey::Admitting(request, params, admission),
            },
            GenerateKey::Preferring(request, params) => match reply {
                Reply::Flag(local) => if local || request.key.domain == Domain::Blob {
                    next.follows_completion(
                        request,
                        None,
                        Completion::of(request.caller.uid, model(params@)),
                    )
                } else {
                    next == GenerateKey::FindingAttestKey(request, params)
                },
                _ => next == self,
            },
            GenerateKey::FindingAttestKey(request, params) => match reply {
                Reply::AttestKey(Ok(info)) => next.follows_completion(
                    request,
                    info,
                    Completion::of(request.caller.uid, model(params@)),
                ),
                Reply::AttestKey(Err(e)) => next == GenerateKey::Done(Err(e)),
                _ => next == self,
            },
            GenerateKey::Completing(request, info, completing) => next.follows_completion(
                request,
                info,
                completing@.after(level, reply),
            ),
            GenerateKey::Tracking(request, params, info) => next == match reply {
                Reply::Flag(true) => GenerateKey::Choosing(
                    Making { request, params, uses_tracked_key: true },
                    info,
                ),
                Reply::Flag(false) => GenerateKey::Comparing(request, params, info),
                _ => self,
            },
            GenerateKey::Comparing(request, params, info) => next == match reply {
                Reply::Flag(uses_tracked_key) => GenerateKey::Choosing(
                    Making { request, params, uses_tracked_key },
                    info,
                ),
                _ => self,
            },
            GenerateKey::Choosing(making, info) => next == match reply {
                Reply::Flag(true) => GenerateKey::InSoftware(making, info),
                Reply::Flag(false) => GenerateKey::on_device(level, making, info),
                _ => self,
            },
            GenerateKey::InSoftware(making, info) => next == match reply {
                Reply::Software(Ok(Some(created))) => making.done(created, false, true).revised(),
                Reply::Software(_) => GenerateKey::on_device(level, making, info),
                _ => self,
            },
            GenerateKey::FindingDevice(making, attester, uuid) => next == match reply {
                Reply::DeviceVersion(Ok(version)) => GenerateKey::attesting(
                    making,
                    attester,
                    Device::ByUuid(uuid),
                    version,
                ),
                Reply::DeviceVersion(Err(_)) => GenerateKey::attesting(
                    making,
                    attester,
                    Device::Own,
                    level.hw_info.version_number,
                ),
                _ => self,
            },
            GenerateKey::Attesting { making, device, version, issuer_subject, run } => {
                let work = making.attested_work(device, version, &issuer_subject);
                match next {
                    GenerateKey::Overriding(_) | GenerateKey::Marking(_) => {
                        &&& next == making.done(next.made().created, true, false).revised()
                        &&& exists|upgraded_blob: Option<Vec<u8>>| #[trigger]
                            run.goes_to(
                                level,
                                work,
                                reply,
                                Upgrade::Done(
                                    Ok((Outcome::Created(next.made().created), upgraded_blob)),
                                ),
                            )
                    },
                    GenerateKey::Done(Err(e)) => run.goes_to(
                        level,
                        work,
                        reply,
                        Upgrade::Done(Err(e)),
                    ),
                    GenerateKey::Attesting {
                        making: m,
                        device: d,
                        version: v,
                        issuer_subject: i,
                        run: again,
                    } => {
                        &&& m == making
                        &&& d == device
                        &&& v == version
                        &&& i == issuer_subject
                        &&& !created_or_failed(again)
                        &&& run.goes_to(level, work, reply, again)
                    },
                    _ => false,
                }
            },
            GenerateKey::NamingComponent { making, key_blob, issuer_subject, attestation_certs } => {
                next == match reply {
                    Reply::Name(Ok(rpc_name)) => GenerateKey::Provisioned {
                        making,
                        issuer_subject,
                        attestation_certs,
                        run: Upgrade::Running(
                            Run { key_blob: plain_blob(key_blob), target: Target::Rkpd { rpc_name } },
                        ),
                    },
                    Reply::Name(Err(e)) => GenerateKey::Done(Err(e)),
                    _ => self,
                }
            },
            GenerateKey::Provisioned { making, issuer_subject, attestation_certs, run } => {
                let work = making.provisioned_work(&issuer_subject);
                match next {
                    GenerateKey::AskingProcessor(made, certs) => {
                        &&& made == making.done(made.created, false, false)
                        &&& certs == attestation_certs
                        &&& exists|upgraded_blob: Option<Vec<u8>>| #[trigger]
                            run.goes_to(
                                level,
                                work,
                                reply,
                                Upgrade::Done(Ok((Outcome::Created(made.created), upgraded_blob))),
                            )
                    },
                    GenerateKey::Done(Err(e)) => run.goes_to(
                        level,
                        work,
                        reply,
                        Upgrade::Done(Err(e)),
                    ),
                    GenerateKey::Provisioned {
                        making: m,
                        issuer_subject: i,
                        attestation_certs: c,
                        run: again,
                    } => {
                        &&& m == making
                        &&& i == issuer_subject
                        &&& c == attestation_certs
                        &&& !created_or_failed(again)
                        &&& run.goes_to(level, work, reply, again)
                    },
                    _ => false,
                }
            },
            GenerateKey::AskingProcessor(made, attestation_certs) => match reply {
                Reply::Decision(Ok(true)) => next == GenerateKey::Processing(
                    made,
                    attestation_certs,
                ),
                Reply::Decision(_) => {
                    let m = next.made();
                    &&& next == m.revised()
                    &&& m == (Made { created: m.created, ..made })
                    &&& m.created.key_blob == made.created.key_blob
                    &&& m.created.key_characteristics == made.created.key_characteristics
                    &&& m.created.certificate_chain@ == made.created.certificate_chain@.push(
                        Certificate { encoded_certificate: attestation_certs },
                    )
                },
                _ => next == self,
            },
            GenerateKey::Processing(made, _) => next == match reply {
                Reply::Chain(certificate_chain) => Made {
                    created: KeyCreationResult { certificate_chain, ..made.created },
                    ..made
                }.revised(),
                _ => self,
            },
            GenerateKey::Plain(making, retry) => match next {
                GenerateKey::Overriding(_) | GenerateKey::Marking(_) => {
                    &&& next == making.done(next.made().created, false, false).revised()
                    &&& retry.goes_to(
                        level,
                        making.params@,
                        reply,
                        GenerateRetry::Done(Ok(next.made().created)),
                    )
                },
                GenerateKey::Done(Err(e)) => retry.goes_to(
                    level,
                    making.params@,
                    reply,
                    GenerateRetry::Done(Err(e)),
                ),
                GenerateKey::Plain(m, again) => {
                    &&& m == making
                    &&& !(again is Done)
                    &&& retry.goes_to(level, making.params@, reply, again)
                },
                _ => false,
            },
            GenerateKey::Overriding(made) => next == match reply {
                Reply::Revised(created) => GenerateKey::Syncing(Made { created, ..made }),
                _ => self,
            },
            GenerateKey::Syncing(made) => next == match reply {
                Reply::Parameters(params) => GenerateKey::Marking(Made { params, ..made }),
                _ => self,
            },
            GenerateKey::Marking(made) => match reply {
                Reply::Returned => {
                    &&& next matches GenerateKey::Storing(store)
                    &&& store.starts(
                        made.request.key,
                        made.created,
                        made.request.caller.user,
                        Some(made.request.flags),
                    )
                },
                _ => next == self,
            },
            GenerateKey::Storing(store) => match next {
                GenerateKey::Done(r) => store.goes_to(level, reply, StoreNewKey::Done(r)),
                GenerateKey::Storing(s) => !(s is Done) && store.goes_to(level, reply, s),
                _ => false,
            },
            GenerateKey::Done(_) => next == self,
        }
    }
}

/// The alias of a new key.
fn alias_ref(key: &KeyDescriptor) -> (r: Option<&String>)
    ensures
        r == alias_of(key),
{
    match &key.alias {
        Some(alias) => Some(alias),
        None => None,
    }
}

/// The attestation key that the caller named.
fn attest_key_ref(request: &KeyRequest) -> (r: Option<&KeyDescriptor>)
    ensures
        r == named_attest_key(request),
{
    match &request.attest_key {
        Some(key) => Some(key),
        None => None,
    }
}

impl Making {
    fn finish(self, created: KeyCreationResult, externally_attested: bool, in_software: bool) -> (r:
        Made)
        ensures
            r == self.done(created, externally_attested, in_software),
    {
        Made {
            request: self.request,
            params: self.params,
            uses_tracked_key: self.uses_tracked_key,
            externally_attested,
            in_software,
            created,
        }
    }
}

impl Made {
    fn revise(self) -> (r: GenerateKey)
        ensures
            r == self.revised(),
    {
        if contains_tag(self.params.as_slice(), Tag::AttestationChallenge) {
            GenerateKey::Overriding(self)
        } else {
            GenerateKey::Marking(self)
        }
    }
}

impl KeystoreSecurityLevel {
    /// Starts the generation of a key.
    pub fn generate_key(
        &self,
        caller: Caller,
        key: KeyDescriptor,
        attest_key: Option<KeyDescriptor>,
        params: Vec<KeyParameter>,
        flags: i32,
    ) -> (r: GenerateKey)
        ensures
            r.starts(caller, key, attest_key, params, flags),
    {
        match new_key_descriptor(key, caller.uid) {
            Ok(key) => {
                let admission = Admission::start(self, &key);
                GenerateKey::Admitting(
                    KeyRequest { caller, key, attest_key, flags },
                    params,
                    admission,
                )
            },
            Err(e) => GenerateKey::Done(Err(e)),
        }
    }

    fn complete(
        &self,
        request: KeyRequest,
        params: Vec<KeyParameter>,
        info: Option<AttestationKeyInfo>,
    ) -> (r: GenerateKey)
        ensures
            r.follows_completion(
                request,
                info,
                Completion::of(request.caller.uid, model(params@)),
            ),
    {
        let completing = self.add_required_parameters(request.caller.uid, params);
        GenerateKey::with_completion(request, info, completing)
    }

    fn make_on_device(&self, making: Making, info: Option<AttestationKeyInfo>) -> (r: GenerateKey)
        ensures
            r == GenerateKey::on_device(*self, making, info),
    {
        match info {
            Some(
                AttestationKeyInfo::UserGenerated { key_id, blob, blob_metadata, issuer_subject },
            ) => {
                let attester = Attester {
                    key_id,
                    blob,
                    km_uuid: blob_metadata.km_uuid,
                    issuer_subject,
                };
                match blob_metadata.km_uuid {
                    Some(uuid) => GenerateKey::FindingDevice(making, attester, uuid),
                    None => self.attest(making, attester, Device::Own, self.hw_info.version_number),
                }
            },
            Some(
                AttestationKeyInfo::RkpdProvisioned { key_blob, issuer_subject, attestation_certs },
            ) => GenerateKey::NamingComponent {
                making,
                key_blob,
                issuer_subject,
                attestation_certs,
            },
            None => GenerateKey::Plain(making, self.generate_key_and_retry_on_att_id_mismatch()),
        }
    }

    fn attest(&self, making: Making, attester: Attester, device: Device, version: i32) -> (r:
        GenerateKey)
        ensures
            r == GenerateKey::attesting(making, attester, device, version),
    {
        let run = self.upgrade_keyblob_if_required_with(
            Some(attester.key_id),
            KeyBlob { bytes: attester.blob, force_reencrypt: false, sealed_with: None },
            attester.km_uuid,
        );
        GenerateKey::Attesting {
            making,
            device,
            version,
            issuer_subject: attester.issuer_subject,
            run,
        }
    }
}

impl GenerateKey {
    fn with_completion(
        request: KeyRequest,
        info: Option<AttestationKeyInfo>,
        completing: AddRequired,
    ) -> (r: GenerateKey)
        ensures
            r.follows_completion(request, info, completing@),
    {
        match completing {
            AddRequired::Done(Ok(params)) => GenerateKey::Tracking(request, params, info),
            AddRequired::Done(Err(e)) => GenerateKey::Done(Err(e)),
            completing => GenerateKey::Completing(request, info, completing),
        }
    }

    /// What the generation waits for.
    pub fn pending<'a>(&'a self, level: &KeystoreSecurityLevel) -> (r: Request<'a>)
        ensures
            r == self.asks(level),
    {
        match self {
            GenerateKey::Admitting(request, _, admission) => admission.pending(&request.key),
            GenerateKey::Preferring(request, params) => Request::PreferLocalAttestKeyFlow {
                uid: request.caller.uid,
                params,
                has_attest_key: request.attest_key.is_some(),
            },
            GenerateKey::FindingAttestKey(request, params) => Request::AttestKeyInfo {
                key: &request.key,
                uid: request.caller.uid,
                attest_key: attest_key_ref(request),
                params,
            },
            GenerateKey::Completing(request, _, completing) => completing.pending(&request.key),
            GenerateKey::Tracking(request, _, _) => Request::UsesTrackedAttestKey {
                uid: request.caller.uid,
                attest_key: attest_key_ref(request),
            },
            GenerateKey::Comparing(request, params, _) => Request::TreatExternalAttestKeyAsCompat {
                uid: request.caller.uid,
                params,
                attest_key: attest_key_ref(request),
            },
            GenerateKey::Choosing(making, info) => Request::ForceSoftwareGeneration {
                uid: making.request.caller.uid,
                params: &making.params,
                has_external_attestation_key: match info {
                    Some(AttestationKeyInfo::UserGenerated { .. }) => true,
                    _ => false,
                },
                uses_tracked_attest_key: making.uses_tracked_key,
            },
            GenerateKey::InSoftware(making, _) => Request::GenerateSoftwareKey {
                uid: making.request.caller.uid,
                params: &making.params,
                alias: alias_ref(&making.request.key),
            },
            GenerateKey::FindingDevice(_, _, uuid) => Request::KeyMintByUuid { uuid: *uuid },
            GenerateKey::Attesting { making, device, version, issuer_subject, run } => run.pending(
                level,
                Work::GenerateAttested {
                    device: *device,
                    version: *version,
                    params: &making.params,
                    issuer_subject,
                },
            ),
            GenerateKey::NamingComponent { .. } => Request::RemotelyProvisionedComponentName {
                security_level: level.security_level,
            },
            GenerateKey::Provisioned { making, issuer_subject, run, .. } => run.pending(
                level,
                Work::GenerateProvisioned { params: &making.params, issuer_subject },
            ),
            GenerateKey::AskingProcessor(_, _) => Request::UseCertProcessor,
            GenerateKey::Processing(made, attestation_certs) => Request::ProcessCertificateChain {
                chain: &made.created.certificate_chain,
                attestation_certs,
            },
            GenerateKey::Plain(making, retry) => retry.pending(&making.params, None),
            GenerateKey::Overriding(made) => Request::OverrideCertificateChain {
                uid: made.request.caller.uid,
                params: &made.params,
                has_external_attestation_key: made.externally_attested,
                uses_tracked_attest_key: made.uses_tracked_key,
                alias: alias_ref(&made.request.key),
                attest_key: attest_key_ref(&made.request),
                creation_result: &made.created,
            },
            GenerateKey::Syncing(made) => Request::SyncPatchlevelAuthorizations {
                uid: made.request.caller.uid,
                creation_result: &made.created,
                params: &made.params,
            },
            GenerateKey::Marking(made) => Request::MarkGeneratedAttestKey {
                uid: made.request.caller.uid,
                key: &made.request.key,
                params: &made.params,
                used_software_generation: made.in_software,
            },
            GenerateKey::Storing(store) => store.pending(level),
            GenerateKey::Done(_) => Request::Nothing,
        }
    }

    /// Goes on from a reply.
    pub fn resume(self, level: &KeystoreSecurityLevel, reply: Reply) -> (next: GenerateKey)
        ensures
            self.goes_to(*level, reply, next),
    {
        match self {
            GenerateKey::Admitting(request, params, admission) => match admission.resume(&reply) {
                Admission::Done(Ok(())) => GenerateKey::Preferring(request, params),
                Admission::Done(Err(e)) => GenerateKey::Done(Err(e)),
                admission => GenerateKey::Admitting(request, params, admission),
            },
            GenerateKey::Preferring(request, params) => match reply {
                Reply::Flag(local) => if local || request.key.domain == Domain::Blob {
                    level.complete(request, params, None)
                } else {
                    GenerateKey::FindingAttestKey(request, params)
                },
                _ => GenerateKey::Preferring(request, params),
            },
            GenerateKey::FindingAttestKey(request, params) => match reply {
                Reply::AttestKey(Ok(info)) => level.complete(request, params, info),
                Reply::AttestKey(Err(e)) => GenerateKey::Done(Err(e)),
                _ => GenerateKey::FindingAttestKey(request, params),
            },
            GenerateKey::Completing(request, info, completing) => {
                let completing = completing.resume(level, reply);
                GenerateKey::with_completion(request, info, completing)
            },
            GenerateKey::Tracking(request, params, info) => match reply {
                Reply::Flag(true) => GenerateKey::Choosing(
                    Making { request, params, uses_tracked_key: true },
                    info,
                ),
                Reply::Flag(false) => GenerateKey::Comparing(request, params, info),
                _ => GenerateKey::Tracking(request, params, info),
            },
            GenerateKey::Comparing(request, params, info) => match reply {
                Reply::Flag(uses_tracked_key) => GenerateKey::Choosing(
                    Making { request, params, uses_tracked_key },
                    info,
                ),
                _ => GenerateKey::Comparing(request, params, info),
            },
            GenerateKey::Choosing(making, info) => match reply {
                Reply::Flag(true) => GenerateKey::InSoftware(making, info),
                Reply::Flag(false) => level.make_on_device(making, info),
                _ => GenerateKey::Choosing(making, info),
            },
            GenerateKey::InSoftware(making, info) => match reply {
                Reply::Software(Ok(Some(created))) => making.finish(created, false, true).revise(),
                Reply::Software(_) => level.make_on_device(making, info),
                _ => GenerateKey::InSoftware(making, info),
            },
            GenerateKey::FindingDevice(making, attester, uuid) => match reply {
                Reply::DeviceVersion(Ok(version)) => level.attest(
                    making,
                    attester,
                    Device::ByUuid(uuid),
                    version,
                ),
                Reply::DeviceVersion(Err(_)) => level.attest(
                    making,
                    attester,
                    Device::Own,
                    level.hw_info.version_number,
                ),
                _ => GenerateKey::FindingDevice(making, attester, uuid),
            },
            GenerateKey::Attesting { making, device, version, issuer_subject, run } => {
                let work = Work::GenerateAttested {
                    device,
                    version,
                    params: &making.params,
                    issuer_subject: &issuer_subject,
                };
                match run.resume(level, work, reply) {
                    Upgrade::Done(Ok((Outcome::Created(created), upgraded_blob))) => {
                        assert(run.goes_to(
                            *level,
                            making.attested_work(device, version, &issuer_subject),
                            reply,
                            Upgrade::Done(Ok((Outcome::Created(created), upgraded_blob))),
                        ));
                        making.finish(created, true, false).revise()
                    },
                    Upgrade::Done(Err(e)) => GenerateKey::Done(Err(e)),
                    run => GenerateKey::Attesting { making, device, version, issuer_subject, run },
                }
            },
            GenerateKey::NamingComponent { making, key_blob, issuer_subject, attestation_certs } => {
                match reply {
                    Reply::Name(Ok(rpc_name)) => GenerateKey::Provisioned {
                        making,
                        issuer_subject,
                        attestation_certs,
                        run: level.upgrade_rkpd_keyblob_if_required_with(rpc_name, key_blob),
                    },
                    Reply::Name(Err(e)) => GenerateKey::Done(Err(e)),
                    _ => GenerateKey::NamingComponent {
                        making,
                        key_blob,
                        issuer_subject,
                        attestation_certs,
                    },
                }
            },
            GenerateKey::Provisioned { making, issuer_subject, attestation_certs, run } => {
                let work = Work::GenerateProvisioned {
                    params: &making.params,
                    issuer_subject: &issuer_subject,
                };
                match run.resume(level, work, reply) {
                    Upgrade::Done(Ok((Outcome::Created(created), upgraded_blob))) => {
                        assert(run.goes_to(
                            *level,
                            making.provisioned_work(&issuer_subject),
                            reply,
                            Upgrade::Done(Ok((Outcome::Created(created), upgraded_blob))),
                        ));
                        GenerateKey::AskingProcessor(
                            making.finish(created, false, false),
                            attestation_certs,
                        )
                    },
                    Upgrade::Done(Err(e)) => GenerateKey::Done(Err(e)),
                    run => GenerateKey::Provisioned {
                        making,
                        issuer_subject,
                        attestation_certs,
                        run,
                    },
                }
            },
            GenerateKey::AskingProcessor(made, attestation_certs) => match reply {
                Reply::Decision(Ok(true)) => GenerateKey::Processing(made, attestation_certs),
                Reply::Decision(_) => {
                    // The whole chain of the attestation key goes into one entry; it is
                    // untangled when the key is stored.
                    let mut made = made;
                    made.created.certificate_chain.push(
                        Certificate { encoded_certificate: attestation_certs },
                    );
                    made.revise()
                },
                _ => GenerateKey::AskingProcessor(made, attestation_certs),
            },
            GenerateKey::Processing(made, attestation_certs) => match reply {
                Reply::Chain(certificate_chain) => {
                    let mut made = made;
                    made.created.certificate_chain = certificate_chain;
                    made.revise()
                },
                _ => GenerateKey::Processing(made, attestation_certs),
            },
            GenerateKey::Plain(making, retry) => {
                match retry.resume(level, &making.params, reply) {
                    GenerateRetry::Done(Ok(created)) => making.finish(
                        created,
                        false,
                        false,
                    ).revise(),
                    GenerateRetry::Done(Err(e)) => GenerateKey::Done(Err(e)),
                    retry => GenerateKey::Plain(making, retry),
                }
            },
            GenerateKey::Overriding(made) => match reply {
                Reply::Revised(created) => {
                    let mut made = made;
                    made.created = created;
                    GenerateKey::Syncing(made)
                },
                _ => GenerateKey::Overriding(made),
            },
            GenerateKey::Syncing(made) => match reply {
                Reply::Parameters(params) => {
                    let mut made = made;
                    made.params = params;
                    GenerateKey::Marking(made)
                },
                _ => GenerateKey::Syncing(made),
            },
            GenerateKey::Marking(made) => match reply {
                Reply::Returned => GenerateKey::Storing(
                    level.store_new_key(
                        made.request.key,
                        made.created,
                        made.request.caller.user,
                        Some(made.request.flags),
                    ),
                ),
                _ => GenerateKey::Marking(made),
            },
            GenerateKey::Storing(store) => match store.resume(level, reply) {
                StoreNewKey::Done(r) => GenerateKey::Done(r),
                store => GenerateKey::Storing(store),
            },
            GenerateKey::Done(r) => GenerateKey::Done(r),
        }
    }
}

} // verus!
