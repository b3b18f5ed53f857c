//! The generation and the import of keys, their storing, and what is recorded of a call.

use keystore2::generate::GenerateKey;
use keystore2::import::ImportKey;
use keystore2::level::{KeyMintHardwareInfo, KeystoreSecurityLevel, PlatformRules};
use keystore2::params::default_cert_subject_der;
use keystore2::report::{AuditEvent, Call, Record, Watch};
use keystore2::request::{
    AttestationKeyRef, ClockReading, LoadBits, Outcome, Reply, Request,
};
use keystore2::store::StoreNewKey;
use keystore2::types::{
    Algorithm, AndroidUserId, AppInfo, AppUid, AttestationKeyInfo, AuthenticatorSpec,
    AuthenticatorType, Authorization, BlobMetaData, Caller, Certificate, CertificateInfo, Device,
    Domain, Error, ErrorCode, Handle, KeyBlob, KeyCharacteristics, KeyCreationResult,
    KeyDescriptor, KeyFormat, KeyMetadata, KeyOrigin, KeyParameter, KeyParameterValue, KeyPerm,
    KsKeyParam, KsKeyParamValue, LoadedKey, ResponseCode, SecurityLevel, Tag, Uuid,
};
use keystore2::wrapped::ImportWrappedKey;

const NOT_AFTER: i64 = 253402300799000;

fn level() -> KeystoreSecurityLevel {
    KeystoreSecurityLevel {
        security_level: SecurityLevel::StrongBox,
        hw_info: KeyMintHardwareInfo { version_number: 300, timestamp_token_required: false },
        km_uuid: Uuid(7),
        rules: PlatformRules {
            undefined_not_after: NOT_AFTER,
            aaid_failed_status: 66,
            device_id_tags: vec![Tag::AttestationIdImei, Tag::AttestationIdSecondImei],
            imei_tags: vec![Tag::AttestationIdImei, Tag::AttestationIdSecondImei],
        },
    }
}

fn caller() -> Caller {
    Caller { uid: AppUid(10_123), user: AndroidUserId(11) }
}

/// The key as the caller names it; the uid is not that of the caller.
fn named() -> KeyDescriptor {
    KeyDescriptor { domain: Domain::App, nspace: -1, alias: Some("key".to_string()), blob: None }
}

/// The key as the caller means it.
fn meant() -> KeyDescriptor {
    KeyDescriptor {
        domain: Domain::App,
        nspace: 10_123,
        alias: Some("key".to_string()),
        blob: None,
    }
}

fn blob_key() -> KeyDescriptor {
    KeyDescriptor { domain: Domain::Blob, nspace: 0, alias: None, blob: None }
}

fn attest_key() -> KeyDescriptor {
    KeyDescriptor {
        domain: Domain::App,
        nspace: 0,
        alias: Some("attester".to_string()),
        blob: None,
    }
}

fn id_key(nspace: i64) -> KeyDescriptor {
    KeyDescriptor { domain: Domain::KeyId, nspace, alias: None, blob: None }
}

fn aes() -> KeyParameter {
    KeyParameter {
        tag: Tag::Algorithm,
        value: KeyParameterValue::Algorithm(Algorithm::Aes),
    }
}

fn blob(tag: Tag, b: &[u8]) -> KeyParameter {
    KeyParameter { tag, value: KeyParameterValue::Blob(b.to_vec()) }
}

fn dated(mut params: Vec<KeyParameter>) -> Vec<KeyParameter> {
    params.push(KeyParameter {
        tag: Tag::CreationDatetime,
        value: KeyParameterValue::DateTime(1000),
    });
    params
}

fn identified(params: Vec<KeyParameter>) -> Vec<KeyParameter> {
    let mut params = dated(params);
    params.push(blob(Tag::AttestationApplicationId, &[4]));
    params
}

fn certificate(b: &[u8]) -> Certificate {
    Certificate { encoded_certificate: b.to_vec() }
}

fn created() -> KeyCreationResult {
    KeyCreationResult {
        key_blob: vec![8, 8],
        key_characteristics: vec![KeyCharacteristics {
            security_level: SecurityLevel::StrongBox,
            authorizations: vec![aes()],
        }],
        certificate_chain: vec![certificate(&[1]), certificate(&[2]), certificate(&[3])],
    }
}

fn ks_param() -> KsKeyParam {
    KsKeyParam { value: KsKeyParamValue::Km(aes()), security_level: SecurityLevel::StrongBox }
}

fn user_param() -> KsKeyParam {
    KsKeyParam {
        value: KsKeyParamValue::UserId(AndroidUserId(11)),
        security_level: SecurityLevel::Software,
    }
}

fn authorizations() -> Vec<Authorization> {
    vec![Authorization { security_level: SecurityLevel::StrongBox, key_parameter: aes() }]
}

fn granted() -> Reply {
    Reply::Status(Ok(()))
}

fn refused() -> Reply {
    Reply::Status(Err(Error::perm()))
}

fn now() -> Reply {
    Reply::Clock(ClockReading { now: Handle(9), millis_since_epoch: Some(1000) })
}

/// The replies that admit a new key.
fn admitted() -> Vec<Reply> {
    vec![Reply::Flag(false), granted()]
}

/// The replies that store a new key.
fn stored() -> Vec<Reply> {
    vec![
        Reply::KsParameters(vec![ks_param()]),
        Reply::Date(Ok(2000)),
        Reply::Sealed(Ok((vec![9, 9], BlobMetaData { km_uuid: None, others: Some(Handle(3)) }))),
        Reply::KeyId(Ok(42)),
        Reply::Authorizations(authorizations()),
    ]
}

fn metadata(key: KeyDescriptor, chain: &[u8]) -> KeyMetadata {
    KeyMetadata {
        key,
        key_security_level: SecurityLevel::StrongBox,
        certificate: Some(vec![1]),
        certificate_chain: Some(chain.to_vec()),
        authorizations: authorizations(),
        modification_time_ms: 2000,
    }
}

// ---------------------------------------------------------------------------------------
// Storing
// ---------------------------------------------------------------------------------------
fn store_all(work: StoreNewKey, replies: Vec<Reply>) -> StoreNewKey {
    let level = level();
    replies.into_iter().fold(work, |w, r| w.resume(&level, r))
}

#[test]
fn new_key_is_stored_under_its_device() {
    let level = level();
    let work = level.store_new_key(meant(), created(), AndroidUserId(11), Some(5));
    assert_eq!(
        work.pending(&level),
        Request::CharacteristicsToInternal {
            key_characteristics: &created().key_characteristics,
        }
    );
    let work = store_all(work, vec![Reply::KsParameters(vec![ks_param()])]);
    assert_eq!(work.pending(&level), Request::CreationDate);
    let work = store_all(work, vec![Reply::Date(Ok(2000))]);
    let parameters = vec![ks_param(), user_param()];
    assert_eq!(
        work.pending(&level),
        Request::SuperEncryptOnKeyInit {
            domain: Domain::App,
            key_parameters: &parameters,
            flags: Some(5),
            user: AndroidUserId(11),
            key_blob: &vec![8, 8],
        }
    );
    let sealed = BlobMetaData { km_uuid: Some(Uuid(1)), others: Some(Handle(3)) };
    let work = store_all(work, vec![Reply::Sealed(Ok((vec![9, 9], sealed)))]);
    assert_eq!(
        work.pending(&level),
        Request::StoreNewKey {
            key: &meant(),
            key_parameters: &parameters,
            blob: &vec![9, 9],
            blob_metadata: BlobMetaData { km_uuid: Some(Uuid(7)), others: Some(Handle(3)) },
            cert_info: &CertificateInfo { cert: Some(vec![1]), cert_chain: Some(vec![2, 3]) },
            creation_date: 2000,
            km_uuid: Uuid(7),
        }
    );
    let work = store_all(work, vec![Reply::KeyId(Ok(42))]);
    assert_eq!(
        work.pending(&level),
        Request::ParametersToAuthorizations { key_parameters: &parameters }
    );
    let work = store_all(work, vec![Reply::Authorizations(authorizations())]);
    assert_eq!(work.pending(&level), Request::Nothing);
    assert!(matches!(work, StoreNewKey::Done(Ok(m)) if m == metadata(id_key(42), &[2, 3])));
}

#[test]
fn self_managed_key_goes_back_as_a_blob() {
    let level = level();
    let work = level.store_new_key(blob_key(), created(), AndroidUserId(11), Some(5));
    let work = store_all(
        work,
        vec![Reply::KsParameters(vec![]), Reply::Date(Ok(2000))],
    );
    assert_eq!(
        work.pending(&level),
        Request::ParametersToAuthorizations { key_parameters: &vec![user_param()] }
    );
    let work = store_all(work, vec![Reply::Authorizations(authorizations())]);
    let key = KeyDescriptor {
        domain: Domain::Blob,
        nspace: 0,
        alias: None,
        blob: Some(vec![8, 8]),
    };
    assert!(matches!(work, StoreNewKey::Done(Ok(m)) if m == metadata(key, &[2, 3])));
}

#[test]
fn failures_to_store_a_key_come_back() {
    let e = Error::Foreign(Handle(1));
    let start = || level().store_new_key(meant(), created(), AndroidUserId(11), None);
    let failures = vec![
        Reply::Date(Err(e)),
        Reply::Sealed(Err(e)),
        Reply::KeyId(Err(e)),
    ];
    for (n, failure) in failures.into_iter().enumerate() {
        let mut replies = stored();
        replies.truncate(n + 1);
        replies.push(failure);
        let work = store_all(start(), replies);
        assert!(matches!(work, StoreNewKey::Done(Err(x)) if x == e));
    }
}

// ---------------------------------------------------------------------------------------
// Generation
// ---------------------------------------------------------------------------------------
fn generate_all(work: GenerateKey, replies: Vec<Reply>) -> GenerateKey {
    let level = level();
    replies.into_iter().fold(work, |w, r| w.resume(&level, r))
}

fn generated(work: GenerateKey) -> Result<KeyMetadata, Error> {
    match work {
        GenerateKey::Done(r) => r,
        other => panic!("still waits for {:?}", other.pending(&level())),
    }
}

fn start(params: Vec<KeyParameter>) -> GenerateKey {
    level().generate_key(caller(), named(), None, params, 5)
}

#[test]
fn plain_key_is_generated() {
    let level = level();
    let work = start(vec![aes()]);
    assert_eq!(work.pending(&level), Request::LimitKeysPerUid);
    let work = generate_all(work, vec![Reply::Flag(true)]);
    assert_eq!(
        work.pending(&level),
        Request::CountKeyEntries { domain: Domain::App, nspace: 10_123 }
    );
    let work = generate_all(work, vec![Reply::Count(Ok(1))]);
    assert_eq!(
        work.pending(&level),
        Request::CheckKeyPermission { perm: KeyPerm::Rebind, key: &meant(), access: None }
    );
    let work = generate_all(work, vec![granted()]);
    let given = vec![aes()];
    assert_eq!(
        work.pending(&level),
        Request::PreferLocalAttestKeyFlow {
            uid: AppUid(10_123),
            params: &given,
            has_attest_key: false,
        }
    );
    let work = generate_all(work, vec![Reply::Flag(false)]);
    assert_eq!(
        work.pending(&level),
        Request::AttestKeyInfo {
            key: &meant(),
            uid: AppUid(10_123),
            attest_key: None,
            params: &given,
        }
    );
    let work = generate_all(work, vec![Reply::AttestKey(Ok(None))]);
    assert_eq!(work.pending(&level), Request::Clock);
    let work = generate_all(work, vec![now()]);
    assert_eq!(
        work.pending(&level),
        Request::UsesTrackedAttestKey { uid: AppUid(10_123), attest_key: None }
    );
    let whole = dated(vec![aes()]);
    let work = generate_all(work, vec![Reply::Flag(false)]);
    assert_eq!(
        work.pending(&level),
        Request::TreatExternalAttestKeyAsCompat {
            uid: AppUid(10_123),
            params: &whole,
            attest_key: None,
        }
    );
    let work = generate_all(work, vec![Reply::Flag(false)]);
    assert_eq!(
        work.pending(&level),
        Request::ForceSoftwareGeneration {
            uid: AppUid(10_123),
            params: &whole,
            has_external_attestation_key: false,
            uses_tracked_attest_key: false,
        }
    );
    let work = generate_all(work, vec![Reply::Flag(false)]);
    assert_eq!(
        work.pending(&level),
        Request::GenerateKey { device: Device::Own, params: &whole, attest_key: None }
    );
    let work = generate_all(work, vec![Reply::Created(Ok(created()))]);
    // Without a challenge the certificate chain stays.
    assert_eq!(
        work.pending(&level),
        Request::MarkGeneratedAttestKey {
            uid: AppUid(10_123),
            key: &meant(),
            params: &whole,
            used_software_generation: false,
        }
    );
    let mut replies = vec![Reply::Returned];
    replies.extend(stored());
    assert_eq!(generated(generate_all(work, replies)), Ok(metadata(id_key(42), &[2, 3])));
}

#[test]
fn generation_is_refused_without_an_alias() {
    let mut key = named();
    key.alias = None;
    let work = level().generate_key(caller(), key, None, vec![aes()], 5);
    assert_eq!(generated(work), Err(Error::Km(ErrorCode::InvalidArgument)));
}

#[test]
fn generation_is_refused_with_too_many_keys_or_no_permission() {
    let info = AppInfo { target_sdk: Some(37), is_system_app: false };
    let work = generate_all(
        start(vec![aes()]),
        vec![Reply::Flag(true), Reply::Count(Ok(50_000)), Reply::App(info)],
    );
    assert_eq!(generated(work), Err(Error::Rc(ResponseCode::TooManyAppKeysSdk37)));
    let work = generate_all(start(vec![aes()]), vec![Reply::Flag(false), refused()]);
    assert_eq!(generated(work), Err(Error::perm()));
}

/// A generation that has come as far as the choice between software and device.
fn choosing(
    attest: Option<KeyDescriptor>,
    params: Vec<KeyParameter>,
    info: Option<AttestationKeyInfo>,
) -> GenerateKey {
    let work = level().generate_key(caller(), named(), attest, params, 5);
    let mut replies = admitted();
    replies.push(Reply::Flag(false));
    replies.push(Reply::AttestKey(Ok(info)));
    replies.push(now());
    replies.push(Reply::Aaid(Ok(vec![4])));
    replies.push(granted());
    replies.push(Reply::Flag(false));
    replies.push(Reply::Flag(true));
    generate_all(work, replies)
}

fn attested_params() -> Vec<KeyParameter> {
    vec![aes(), blob(Tag::AttestationChallenge, &[0; 16])]
}

fn user_generated(km_uuid: Option<Uuid>) -> Option<AttestationKeyInfo> {
    Some(AttestationKeyInfo::UserGenerated {
        key_id: 13,
        blob: vec![6, 6],
        blob_metadata: BlobMetaData { km_uuid, others: None },
        issuer_subject: vec![0x30],
    })
}

fn provisioned() -> Option<AttestationKeyInfo> {
    Some(AttestationKeyInfo::RkpdProvisioned {
        key_blob: vec![6, 7],
        issuer_subject: vec![0x31],
        attestation_certs: vec![5, 5],
    })
}

#[test]
fn local_flow_skips_the_lookup() {
    let mut replies = admitted();
    replies.push(Reply::Flag(true));
    let work = generate_all(start(vec![aes()]), replies);
    assert_eq!(work.pending(&level()), Request::Clock);
    // So does a key that goes back as a blob.
    let work = level().generate_key(caller(), blob_key(), None, vec![aes()], 5);
    let mut replies = admitted();
    replies.push(Reply::Flag(false));
    assert_eq!(generate_all(work, replies).pending(&level()), Request::Clock);
}

#[test]
fn failed_lookup_and_failed_completion_end_the_generation() {
    let e = Error::Foreign(Handle(4));
    let mut replies = admitted();
    replies.push(Reply::Flag(false));
    replies.push(Reply::AttestKey(Err(e)));
    assert_eq!(generated(generate_all(start(vec![aes()]), replies)), Err(e));
    let mut replies = admitted();
    replies.push(Reply::Flag(true));
    assert_eq!(
        generated(generate_all(start(dated(vec![])), replies)),
        Err(Error::Rc(ResponseCode::InvalidArgument))
    );
}

#[test]
fn tracked_attestation_key_is_not_compared() {
    let level = level();
    let work = level.generate_key(caller(), named(), Some(attest_key()), vec![aes()], 5);
    let mut replies = admitted();
    replies.extend(vec![Reply::Flag(false), Reply::AttestKey(Ok(user_generated(None))), now()]);
    let work = generate_all(work, replies);
    assert_eq!(
        work.pending(&level),
        Request::UsesTrackedAttestKey { uid: AppUid(10_123), attest_key: Some(&attest_key()) }
    );
    let work = generate_all(work, vec![Reply::Flag(true)]);
    assert_eq!(
        work.pending(&level),
        Request::ForceSoftwareGeneration {
            uid: AppUid(10_123),
            params: &dated(vec![aes()]),
            has_external_attestation_key: true,
            uses_tracked_attest_key: true,
        }
    );
}

#[test]
fn software_key_with_another_certificate_chain() {
    let level = level();
    let work = choosing(Some(attest_key()), attested_params(), user_generated(None));
    let work = generate_all(work, vec![Reply::Flag(true)]);
    let whole = identified(attested_params());
    let alias = "key".to_string();
    assert_eq!(
        work.pending(&level),
        Request::GenerateSoftwareKey {
            uid: AppUid(10_123),
            params: &whole,
            alias: Some(&alias),
        }
    );
    let work = generate_all(work, vec![Reply::Software(Ok(Some(created())))]);
    // No key of the caller's own signed it, as it was made in software.
    assert_eq!(
        work.pending(&level),
        Request::OverrideCertificateChain {
            uid: AppUid(10_123),
            params: &whole,
            has_external_attestation_key: false,
            uses_tracked_attest_key: true,
            alias: Some(&alias),
            attest_key: Some(&attest_key()),
            creation_result: &created(),
        }
    );
    let mut revised = created();
    revised.certificate_chain = vec![certificate(&[1]), certificate(&[7, 7])];
    let work = generate_all(work, vec![Reply::Revised(revised.clone())]);
    assert_eq!(
        work.pending(&level),
        Request::SyncPatchlevelAuthorizations {
            uid: AppUid(10_123),
            creation_result: &revised,
            params: &whole,
        }
    );
    let work = generate_all(work, vec![Reply::Parameters(vec![aes()])]);
    assert_eq!(
        work.pending(&level),
        Request::MarkGeneratedAttestKey {
            uid: AppUid(10_123),
            key: &meant(),
            params: &vec![aes()],
            used_software_generation: true,
        }
    );
    let mut replies = vec![Reply::Returned];
    replies.extend(stored());
    assert_eq!(generated(generate_all(work, replies)), Ok(metadata(id_key(42), &[7, 7])));
}

#[test]
fn software_generation_falls_back_to_the_device() {
    let level = level();
    let whole = dated(vec![aes()]);
    for failure in [Ok(None), Err(Error::sys())] {
        let work = choosing(None, vec![aes()], None);
        let work = generate_all(work, vec![Reply::Flag(true), Reply::Software(failure)]);
        assert_eq!(
            work.pending(&level),
            Request::GenerateKey { device: Device::Own, params: &whole, attest_key: None }
        );
    }
}

#[test]
fn callers_key_attests_on_its_own_device() {
    let level = level();
    let whole = identified(attested_params());
    let work = choosing(Some(attest_key()), attested_params(), user_generated(Some(Uuid(21))));
    let work = generate_all(work, vec![Reply::Flag(false)]);
    assert_eq!(work.pending(&level), Request::KeyMintByUuid { uuid: Uuid(21) });
    let work = generate_all(work, vec![Reply::DeviceVersion(Ok(200))]);
    assert_eq!(
        work.pending(&level),
        Request::RunWithUpgrade {
            device: Device::ByUuid(Uuid(21)),
            version: 200,
            key_blob: &vec![6, 6],
            params: Some(&whole),
        }
    );
    let work = generate_all(work, vec![Reply::OperationCalled(vec![6, 6])]);
    assert_eq!(
        work.pending(&level),
        Request::GenerateKey {
            device: Device::ByUuid(Uuid(21)),
            params: &whole,
            attest_key: Some(AttestationKeyRef {
                key_blob: &vec![6, 6],
                issuer_subject_name: &vec![0x30],
            }),
        }
    );
    // An upgraded blob is stored for the attestation key, under its device.
    let work = generate_all(
        work,
        vec![
            Reply::Created(Err(Error::Km(ErrorCode::KeyRequiresUpgrade))),
            Reply::Returned,
            Reply::NewBlob(vec![6, 8]),
            Reply::Reencrypted(Ok((vec![6, 8], None))),
        ],
    );
    assert_eq!(
        work.pending(&level),
        Request::SetKeyBlob {
            key_id: 13,
            blob: &vec![6, 8],
            blob_metadata: BlobMetaData { km_uuid: Some(Uuid(21)), others: None },
        }
    );
    let work = generate_all(
        work,
        vec![
            granted(),
            Reply::Returned,
            Reply::OperationCalled(vec![6, 8]),
            Reply::Created(Ok(created())),
            Reply::Returned,
            Reply::UpgradeDone(Ok((Outcome::Created(created()), Some(vec![6, 8])))),
        ],
    );
    let alias = "key".to_string();
    assert_eq!(
        work.pending(&level),
        Request::OverrideCertificateChain {
            uid: AppUid(10_123),
            params: &whole,
            has_external_attestation_key: true,
            uses_tracked_attest_key: true,
            alias: Some(&alias),
            attest_key: Some(&attest_key()),
            creation_result: &created(),
        }
    );
    let mut replies =
        vec![Reply::Revised(created()), Reply::Parameters(whole.clone()), Reply::Returned];
    replies.extend(stored());
    assert_eq!(generated(generate_all(work, replies)), Ok(metadata(id_key(42), &[2, 3])));
}

#[test]
fn callers_key_attests_on_the_device_at_hand() {
    let level = level();
    let at_hand = |work: &GenerateKey| {
        matches!(
            work.pending(&level),
            Request::RunWithUpgrade { device: Device::Own, version: 300, .. }
        )
    };
    // Its own device is not found.
    let work = choosing(None, vec![aes()], user_generated(Some(Uuid(21))));
    let work = generate_all(
        work,
        vec![Reply::Flag(false), Reply::DeviceVersion(Err(Error::sys()))],
    );
    assert!(at_hand(&work));
    // Its own device is not known.
    let work = choosing(None, vec![aes()], user_generated(None));
    let work = generate_all(work, vec![Reply::Flag(false)]);
    assert!(at_hand(&work));
    let e = Error::Km(ErrorCode::CannotAttestIds);
    let work = generate_all(work, vec![Reply::UpgradeDone(Err(e))]);
    assert_eq!(generated(work), Err(e));
}

#[test]
fn provisioned_key_attests() {
    let level = level();
    let whole = identified(attested_params());
    let work = choosing(None, attested_params(), provisioned());
    let work = generate_all(work, vec![Reply::Flag(false)]);
    assert_eq!(
        work.pending(&level),
        Request::RemotelyProvisionedComponentName { security_level: SecurityLevel::StrongBox }
    );
    let work = generate_all(
        work,
        vec![Reply::Name(Ok("strongbox".to_string())), Reply::OperationCalled(vec![6, 7])],
    );
    assert_eq!(
        work.pending(&level),
        Request::GenerateKey {
            device: Device::Own,
            params: &whole,
            attest_key: Some(AttestationKeyRef {
                key_blob: &vec![6, 7],
                issuer_subject_name: &vec![0x31],
            }),
        }
    );
    let work = generate_all(
        work,
        vec![
            Reply::Created(Ok(created())),
            Reply::Returned,
            Reply::UpgradeDone(Ok((Outcome::Created(created()), None))),
        ],
    );
    assert_eq!(work.pending(&level), Request::UseCertProcessor);
    // Without the post-processor the certificates of the key end the chain.
    let mut with_certs = created();
    with_certs.certificate_chain.push(certificate(&[5, 5]));
    let work = generate_all(work, vec![Reply::Decision(Ok(false))]);
    assert!(matches!(
        work.pending(&level),
        Request::OverrideCertificateChain {
            creation_result,
            has_external_attestation_key: false,
            ..
        } if creation_result == &with_certs
    ));
    let mut replies =
        vec![Reply::Revised(with_certs), Reply::Parameters(whole.clone()), Reply::Returned];
    replies.extend(stored());
    assert_eq!(
        generated(generate_all(work, replies)),
        Ok(metadata(id_key(42), &[2, 3, 5, 5]))
    );
}

#[test]
fn provisioned_key_is_upgraded_first() {
    let level = level();
    let whole = dated(vec![aes()]);
    let work = generate_all(
        choosing(None, vec![aes()], provisioned()),
        vec![
            Reply::Flag(false),
            Reply::Name(Ok("strongbox".to_string())),
            Reply::OperationCalled(vec![6, 7]),
            Reply::Created(Err(Error::Km(ErrorCode::KeyRequiresUpgrade))),
            Reply::Returned,
            Reply::NewBlob(vec![6, 9]),
        ],
    );
    let rpc_name = "strongbox".to_string();
    assert_eq!(
        work.pending(&level),
        Request::StoreRkpdAttestationKey {
            rpc_name: &rpc_name,
            key_blob: &vec![6, 7],
            upgraded_blob: &vec![6, 9],
        }
    );
    let work = generate_all(
        work,
        vec![granted(), Reply::Returned, Reply::OperationCalled(vec![6, 9])],
    );
    assert_eq!(
        work.pending(&level),
        Request::GenerateKey {
            device: Device::Own,
            params: &whole,
            attest_key: Some(AttestationKeyRef {
                key_blob: &vec![6, 9],
                issuer_subject_name: &vec![0x31],
            }),
        }
    );
    let mut replies = vec![
        Reply::Created(Ok(created())),
        Reply::Returned,
        Reply::UpgradeDone(Ok((Outcome::Created(created()), Some(vec![6, 9])))),
        Reply::Decision(Ok(false)),
        Reply::Returned,
    ];
    replies.extend(stored());
    assert_eq!(
        generated(generate_all(work, replies)),
        Ok(metadata(id_key(42), &[2, 3, 5, 5]))
    );
}

#[test]
fn provisioned_key_gets_the_imeis_in_the_other_order() {
    let level = level();
    let params = vec![blob(Tag::AttestationIdImei, &[1]), blob(Tag::AttestationIdSecondImei, &[2])];
    let work = generate_all(
        choosing(None, params, provisioned()),
        vec![
            Reply::Flag(false),
            Reply::Name(Ok("strongbox".to_string())),
            Reply::OperationCalled(vec![6, 7]),
            Reply::Created(Err(Error::Km(ErrorCode::AttestationIdsNotProvisioned))),
        ],
    );
    let swapped = dated(vec![
        blob(Tag::AttestationIdSecondImei, &[1]),
        blob(Tag::AttestationIdImei, &[2]),
    ]);
    assert_eq!(
        work.pending(&level),
        Request::GenerateKey {
            device: Device::Own,
            params: &swapped,
            attest_key: Some(AttestationKeyRef {
                key_blob: &vec![6, 7],
                issuer_subject_name: &vec![0x31],
            }),
        }
    );
}

#[test]
fn second_attempt_makes_the_key() {
    let params = vec![blob(Tag::AttestationIdImei, &[1]), blob(Tag::AttestationIdSecondImei, &[2])];
    let mismatch = || Reply::Created(Err(Error::Km(ErrorCode::CannotAttestIds)));
    // Without an attestation key, after nothing came of software.
    let mut replies = vec![
        Reply::Flag(true),
        Reply::Software(Err(Error::sys())),
        mismatch(),
        Reply::Created(Ok(created())),
        Reply::Returned,
    ];
    replies.extend(stored());
    let work = choosing(None, params.clone(), None);
    assert_eq!(generated(generate_all(work, replies)), Ok(metadata(id_key(42), &[2, 3])));
    // With a provisioned one.
    let mut replies = vec![
        Reply::Flag(true),
        Reply::Software(Ok(None)),
        Reply::Name(Ok("strongbox".to_string())),
        Reply::OperationCalled(vec![6, 7]),
        mismatch(),
        Reply::Created(Ok(created())),
        Reply::Returned,
        Reply::UpgradeDone(Ok((Outcome::Created(created()), None))),
        Reply::Decision(Ok(false)),
        Reply::Returned,
    ];
    replies.extend(stored());
    let work = choosing(None, params, provisioned());
    assert_eq!(
        generated(generate_all(work, replies)),
        Ok(metadata(id_key(42), &[2, 3, 5, 5]))
    );
}

#[test]
fn attestation_key_that_cannot_be_kept_ends_the_generation() {
    let e = Error::Foreign(Handle(8));
    let work = generate_all(
        choosing(None, vec![aes()], user_generated(None)),
        vec![
            Reply::Flag(false),
            Reply::OperationCalled(vec![6, 6]),
            Reply::Created(Err(Error::Km(ErrorCode::KeyRequiresUpgrade))),
            Reply::Returned,
            Reply::NewBlob(vec![6, 8]),
            Reply::Reencrypted(Err(e)),
        ],
    );
    assert_eq!(work.pending(&level()), Request::ReturnStatus(Err(e)));
    let work = generate_all(work, vec![Reply::Returned, Reply::UpgradeDone(Err(e))]);
    assert_eq!(generated(work), Err(e));
}

#[test]
fn key_that_the_run_returned_is_the_one_that_is_stored() {
    let level = level();
    let mut other = created();
    other.key_blob = vec![7, 7];
    other.certificate_chain = vec![certificate(&[4])];
    let work = generate_all(
        choosing(None, vec![aes()], user_generated(None)),
        vec![
            Reply::Flag(false),
            Reply::OperationCalled(vec![6, 6]),
            Reply::Created(Ok(created())),
            Reply::Returned,
            Reply::UpgradeDone(Ok((Outcome::Created(other), None))),
            Reply::Returned,
            Reply::KsParameters(vec![]),
            Reply::Date(Ok(2000)),
        ],
    );
    let seven = vec![7, 7];
    assert!(matches!(
        work.pending(&level),
        Request::SuperEncryptOnKeyInit { key_blob, .. } if *key_blob == seven
    ));
    let found = generated(generate_all(work, stored())).unwrap();
    assert_eq!(found.certificate, Some(vec![4]));
    assert_eq!(found.certificate_chain, None);
}

#[test]
fn post_processor_replaces_the_chain() {
    let level = level();
    let made = || {
        generate_all(
            choosing(None, vec![aes()], provisioned()),
            vec![
                Reply::Flag(false),
                Reply::Name(Ok("strongbox".to_string())),
                Reply::UpgradeDone(Ok((Outcome::Created(created()), None))),
            ],
        )
    };
    let work = generate_all(made(), vec![Reply::Decision(Ok(true))]);
    assert_eq!(
        work.pending(&level),
        Request::ProcessCertificateChain {
            chain: &created().certificate_chain,
            attestation_certs: &vec![5, 5],
        }
    );
    let mut replies = vec![
        Reply::Chain(vec![certificate(&[1]), certificate(&[6])]),
        Reply::Returned,
    ];
    replies.extend(stored());
    assert_eq!(generated(generate_all(work, replies)), Ok(metadata(id_key(42), &[6])));
    // A property that cannot be read counts as off.
    let mut replies = vec![Reply::Decision(Err(Error::sys())), Reply::Returned];
    replies.extend(stored());
    assert_eq!(
        generated(generate_all(made(), replies)),
        Ok(metadata(id_key(42), &[2, 3, 5, 5]))
    );
}

#[test]
fn unknown_component_ends_the_generation() {
    let e = Error::Rc(ResponseCode::Other(22));
    let work = choosing(None, vec![aes()], provisioned());
    let work = generate_all(work, vec![Reply::Flag(false), Reply::Name(Err(e))]);
    assert_eq!(generated(work), Err(e));
}

#[test]
fn device_gets_the_imeis_in_the_other_order() {
    let level = level();
    let params = vec![blob(Tag::AttestationIdImei, &[1]), blob(Tag::AttestationIdSecondImei, &[2])];
    let work = choosing(None, params, None);
    let work = generate_all(
        work,
        vec![
            Reply::Flag(false),
            Reply::Created(Err(Error::Km(ErrorCode::CannotAttestIds))),
        ],
    );
    let swapped = dated(vec![
        blob(Tag::AttestationIdSecondImei, &[1]),
        blob(Tag::AttestationIdImei, &[2]),
    ]);
    assert_eq!(
        work.pending(&level),
        Request::GenerateKey { device: Device::Own, params: &swapped, attest_key: None }
    );
    let e = Error::Km(ErrorCode::InvalidTag);
    let work = generate_all(work, vec![Reply::Created(Err(e))]);
    assert_eq!(generated(work), Err(e));
}

// ---------------------------------------------------------------------------------------
// Import
// ---------------------------------------------------------------------------------------
fn import_all(work: ImportKey, replies: Vec<Reply>) -> ImportKey {
    let level = level();
    replies.into_iter().fold(work, |w, r| w.resume(&level, r))
}

fn imported(work: ImportKey) -> Result<KeyMetadata, Error> {
    match work {
        ImportKey::Done(r) => r,
        other => panic!("still waits for {:?}", other.pending(&level())),
    }
}

#[test]
fn key_is_imported() {
    let level = level();
    let work = level.import_key(caller(), named(), vec![aes()], 5, vec![0xaa]);
    assert_eq!(work.pending(&level), Request::LimitKeysPerUid);
    let mut replies = admitted();
    replies.push(now());
    let work = import_all(work, replies);
    let whole = dated(vec![aes()]);
    assert_eq!(
        work.pending(&level),
        Request::ImportKey { params: &whole, format: KeyFormat::Raw, key_data: &vec![0xaa] }
    );
    let work = import_all(work, vec![Reply::Created(Ok(created()))]);
    assert_eq!(imported(import_all(work, stored())), Ok(metadata(id_key(42), &[2, 3])));
}

#[test]
fn asymmetric_key_is_imported_with_defaults() {
    let level = level();
    let rsa = KeyParameter {
        tag: Tag::Algorithm,
        value: KeyParameterValue::Algorithm(Algorithm::Rsa),
    };
    let work = level.import_key(caller(), named(), vec![rsa.clone()], 5, vec![0xaa]);
    let mut replies = admitted();
    replies.push(now());
    let work = import_all(work, replies);
    let mut whole = dated(vec![rsa]);
    whole.push(blob(Tag::CertificateSubject, &default_cert_subject_der()));
    for (tag, time) in [(Tag::CertificateNotBefore, 0), (Tag::CertificateNotAfter, NOT_AFTER)] {
        whole.push(KeyParameter { tag, value: KeyParameterValue::DateTime(time) });
    }
    whole.push(KeyParameter {
        tag: Tag::RsaPublicExponent,
        value: KeyParameterValue::LongInteger(65537),
    });
    assert_eq!(
        work.pending(&level),
        Request::ImportKey { params: &whole, format: KeyFormat::Pkcs8, key_data: &vec![0xaa] }
    );
}

#[test]
fn import_is_refused() {
    let level = level();
    let invalid = Err(Error::Km(ErrorCode::InvalidArgument));
    let mut no_alias = named();
    no_alias.alias = None;
    let work = level.import_key(caller(), no_alias, vec![aes()], 5, vec![]);
    assert_eq!(imported(work), invalid);
    let begin = |params| level.import_key(caller(), named(), params, 5, vec![]);
    let work = import_all(begin(vec![aes()]), vec![Reply::Flag(false), refused()]);
    assert_eq!(imported(work), Err(Error::perm()));
    // No algorithm.
    let mut replies = admitted();
    replies.push(now());
    assert_eq!(imported(import_all(begin(vec![]), replies)), invalid);
    // A date of creation.
    let work = import_all(begin(dated(vec![aes()])), admitted());
    assert_eq!(imported(work), Err(Error::Rc(ResponseCode::InvalidArgument)));
    // The device.
    let e = Error::Km(ErrorCode::Other(-3));
    let mut replies = admitted();
    replies.push(now());
    replies.push(Reply::Created(Err(e)));
    assert_eq!(imported(import_all(begin(vec![aes()]), replies)), Err(e));
}

// ---------------------------------------------------------------------------------------
// Import of a wrapped key
// ---------------------------------------------------------------------------------------
fn wrapped_all(work: ImportWrappedKey, replies: Vec<Reply>) -> ImportWrappedKey {
    let level = level();
    replies.into_iter().fold(work, |w, r| w.resume(&level, r))
}

fn unwrapped(work: ImportWrappedKey) -> Result<KeyMetadata, Error> {
    match work {
        ImportWrappedKey::Done(r) => r,
        other => panic!("still waits for {:?}", other.pending(&level())),
    }
}

fn wrapped_named() -> KeyDescriptor {
    let mut key = named();
    key.blob = Some(vec![0xbb]);
    key
}

fn wrapping_key() -> KeyDescriptor {
    KeyDescriptor {
        domain: Domain::App,
        nspace: 0,
        alias: Some("wrapper".to_string()),
        blob: None,
    }
}

fn start_wrapped(
    key: KeyDescriptor,
    wrapping: KeyDescriptor,
    mask: Option<Vec<u8>>,
) -> ImportWrappedKey {
    let authenticators = [AuthenticatorSpec {
        authenticator_type: AuthenticatorType::Password,
        authenticator_id: 17,
    }];
    level().import_wrapped_key(caller(), key, wrapping, mask, vec![aes()], &authenticators)
}

fn wrapper_loaded(blob_info: Option<(Vec<u8>, BlobMetaData)>) -> Reply {
    Reply::Loaded(Ok(LoadedKey { key_id: 31, attested: false, blob_info, key_parameters: vec![] }))
}

fn wrapper_metadata() -> BlobMetaData {
    BlobMetaData { km_uuid: Some(Uuid(7)), others: None }
}

#[test]
fn wrapped_key_is_imported() {
    let level = level();
    let work = wrapped_all(start_wrapped(wrapped_named(), wrapping_key(), None), admitted());
    assert_eq!(
        work.pending(&level),
        Request::LoadKeyEntry {
            import_as: &meant(),
            key: &wrapping_key(),
            caller: caller(),
            bits: LoadBits::Km,
        }
    );
    let work = wrapped_all(
        work,
        vec![Reply::AccessCheck { key: wrapping_key(), access: Some(1) }],
    );
    assert_eq!(
        work.pending(&level),
        Request::CheckKeyPermission { perm: KeyPerm::Use, key: &wrapping_key(), access: Some(1) }
    );
    let work = wrapped_all(
        work,
        vec![
            granted(),
            Reply::Returned,
            wrapper_loaded(Some((vec![3], wrapper_metadata()))),
        ],
    );
    assert_eq!(
        work.pending(&level),
        Request::UnwrapKeyIfRequired { blob_metadata: wrapper_metadata(), blob: &vec![3] }
    );
    let key_blob = KeyBlob { bytes: vec![4], force_reencrypt: false, sealed_with: None };
    let work = wrapped_all(
        work,
        vec![Reply::Unwrapped(Ok(key_blob)), Reply::OperationCalled(vec![4])],
    );
    assert_eq!(
        work.pending(&level),
        Request::ImportWrappedKey {
            wrapped_data: &vec![0xbb],
            wrapping_key_blob: &vec![4],
            masking_key: &vec![0; 32],
            params: &vec![aes()],
            password_sid: 17,
            fingerprint_sid: -1,
        }
    );
    let work = wrapped_all(
        work,
        vec![
            Reply::Created(Ok(created())),
            Reply::Returned,
            Reply::UpgradeDone(Ok((Outcome::Created(created()), None))),
            Reply::KsParameters(vec![]),
            Reply::Date(Ok(2000)),
        ],
    );
    // The key is stored without flags.
    assert!(matches!(
        work.pending(&level),
        Request::SuperEncryptOnKeyInit { flags: None, user: AndroidUserId(11), .. }
    ));
    let work = wrapped_all(work, stored());
    assert_eq!(unwrapped(work), Ok(metadata(id_key(42), &[2, 3])));
}

#[test]
fn wrapping_key_is_upgraded_first() {
    let level = level();
    let mut replies = admitted();
    replies.push(Reply::AccessCheck { key: wrapping_key(), access: None });
    replies.push(granted());
    replies.push(Reply::Returned);
    replies.push(wrapper_loaded(Some((vec![3], wrapper_metadata()))));
    // The old blob is due for new encryption, but it is the upgraded one that is written.
    let key_blob = KeyBlob { bytes: vec![4], force_reencrypt: true, sealed_with: None };
    replies.push(Reply::Unwrapped(Ok(key_blob)));
    replies.push(Reply::OperationCalled(vec![4]));
    replies.push(Reply::Created(Err(Error::Km(ErrorCode::KeyRequiresUpgrade))));
    replies.push(Reply::Returned);
    replies.push(Reply::NewBlob(vec![5]));
    replies.push(Reply::Reencrypted(Ok((vec![0xe5], None))));
    let work = wrapped_all(start_wrapped(wrapped_named(), wrapping_key(), None), replies);
    assert_eq!(
        work.pending(&level),
        Request::SetKeyBlob {
            key_id: 31,
            blob: &vec![0xe5],
            blob_metadata: BlobMetaData { km_uuid: Some(Uuid(7)), others: None },
        }
    );
    let work = wrapped_all(
        work,
        vec![granted(), Reply::Returned, Reply::OperationCalled(vec![5])],
    );
    let five = vec![5];
    assert!(matches!(
        work.pending(&level),
        Request::ImportWrappedKey { wrapping_key_blob, .. } if *wrapping_key_blob == five
    ));
    let mut replies = vec![
        Reply::Created(Ok(created())),
        Reply::Returned,
        Reply::UpgradeDone(Ok((Outcome::Created(created()), Some(vec![5])))),
    ];
    replies.extend(stored());
    assert_eq!(unwrapped(wrapped_all(work, replies)), Ok(metadata(id_key(42), &[2, 3])));
}

#[test]
fn wrapping_key_that_cannot_be_kept_ends_the_import() {
    let e = Error::Foreign(Handle(8));
    let mut replies = admitted();
    replies.push(wrapper_loaded(Some((vec![3], wrapper_metadata()))));
    let key_blob = KeyBlob { bytes: vec![4], force_reencrypt: true, sealed_with: None };
    replies.push(Reply::Unwrapped(Ok(key_blob)));
    replies.push(Reply::NewBlob(vec![5]));
    replies.push(Reply::Reencrypted(Ok((vec![0xe5], None))));
    replies.push(Reply::Status(Err(e)));
    let work = wrapped_all(start_wrapped(wrapped_named(), wrapping_key(), None), replies);
    assert_eq!(work.pending(&level()), Request::ReturnStatus(Err(e)));
    let work = wrapped_all(work, vec![Reply::Returned, Reply::UpgradeDone(Err(e))]);
    assert_eq!(unwrapped(work), Err(e));
}

#[test]
fn masking_key_is_used_as_given() {
    let work = start_wrapped(wrapped_named(), wrapping_key(), Some(vec![1, 2]));
    let mut replies = admitted();
    replies.push(wrapper_loaded(Some((vec![3], wrapper_metadata()))));
    replies.push(Reply::Unwrapped(Ok(KeyBlob {
        bytes: vec![4],
        force_reencrypt: false,
        sealed_with: None,
    })));
    replies.push(Reply::OperationCalled(vec![4]));
    let work = wrapped_all(work, replies);
    assert!(matches!(
        work.pending(&level()),
        Request::ImportWrappedKey { masking_key, .. } if masking_key == &vec![1, 2]
    ));
}

#[test]
fn no_masking_key_is_as_good_as_zeroes() {
    let level = level();
    let mut without = start_wrapped(wrapped_named(), wrapping_key(), None);
    let mut with_zeroes = start_wrapped(wrapped_named(), wrapping_key(), Some(vec![0; 32]));
    let replies = || {
        let mut replies = admitted();
        replies.push(Reply::AccessCheck { key: wrapping_key(), access: None });
        replies.push(granted());
        replies.push(Reply::Returned);
        replies.push(wrapper_loaded(Some((vec![3], wrapper_metadata()))));
        replies.push(Reply::Unwrapped(Ok(KeyBlob {
            bytes: vec![4],
            force_reencrypt: false,
            sealed_with: None,
        })));
        replies.push(Reply::OperationCalled(vec![4]));
        replies.push(Reply::Created(Ok(created())));
        replies.push(Reply::Returned);
        replies.push(Reply::UpgradeDone(Ok((Outcome::Created(created()), None))));
        replies.extend(stored());
        replies
    };
    let mut imports = 0;
    for (a, b) in replies().into_iter().zip(replies()) {
        assert_eq!(without.pending(&level), with_zeroes.pending(&level));
        if let Request::ImportWrappedKey { masking_key, .. } = without.pending(&level) {
            assert_eq!(masking_key, &vec![0; 32]);
            imports += 1;
        }
        without = without.resume(&level, a);
        with_zeroes = with_zeroes.resume(&level, b);
    }
    assert_eq!(imports, 1);
    let result = unwrapped(without);
    assert_eq!(result, Ok(metadata(id_key(42), &[2, 3])));
    assert_eq!(result, unwrapped(with_zeroes));
}

#[test]
fn refused_wrapping_key_does_not_reach_the_device() {
    let level = level();
    let work = start_wrapped(wrapped_named(), wrapping_key(), None);
    let mut replies = admitted();
    replies.push(Reply::AccessCheck { key: wrapping_key(), access: None });
    replies.push(refused());
    let work = wrapped_all(work, replies);
    assert_eq!(work.pending(&level), Request::ReturnStatus(Err(Error::perm())));
    let work = wrapped_all(work, vec![Reply::Returned, Reply::Loaded(Err(Error::perm()))]);
    assert_eq!(unwrapped(work), Err(Error::perm()));
}

#[test]
fn wrapped_key_of_selinux_keeps_its_namespace() {
    let mut key = wrapped_named();
    key.domain = Domain::SeLinux;
    key.nspace = 102;
    let work = wrapped_all(start_wrapped(key, wrapping_key(), None), vec![Reply::Flag(true)]);
    let bound = KeyDescriptor {
        domain: Domain::SeLinux,
        nspace: 102,
        alias: Some("key".to_string()),
        blob: None,
    };
    assert_eq!(
        work.pending(&level()),
        Request::CheckKeyPermission { perm: KeyPerm::Rebind, key: &bound, access: None }
    );
}

#[test]
fn wrapped_import_is_refused() {
    let invalid = Err(Error::Km(ErrorCode::InvalidArgument));
    assert_eq!(unwrapped(start_wrapped(named(), wrapping_key(), None)), invalid);
    let mut no_alias = wrapped_named();
    no_alias.alias = None;
    assert_eq!(unwrapped(start_wrapped(no_alias, wrapping_key(), None)), invalid);
    for domain in [Domain::Blob, Domain::KeyId, Domain::Other(1)] {
        let mut key = wrapped_named();
        key.domain = domain;
        assert_eq!(unwrapped(start_wrapped(key, wrapping_key(), None)), invalid);
    }
    let mut self_managed = wrapping_key();
    self_managed.domain = Domain::Blob;
    assert_eq!(unwrapped(start_wrapped(wrapped_named(), self_managed, None)), invalid);
    let begin = || start_wrapped(wrapped_named(), wrapping_key(), None);
    let work = wrapped_all(begin(), vec![Reply::Flag(false), refused()]);
    assert_eq!(unwrapped(work), Err(Error::perm()));
}

#[test]
fn wrapped_import_ends_without_the_wrapping_key() {
    let begin = || wrapped_all(start_wrapped(wrapped_named(), wrapping_key(), None), admitted());
    let e = Error::Rc(ResponseCode::Other(7));
    assert_eq!(unwrapped(wrapped_all(begin(), vec![Reply::Loaded(Err(e))])), Err(e));
    assert_eq!(unwrapped(wrapped_all(begin(), vec![wrapper_loaded(None)])), Err(Error::sys()));
    let loaded = || wrapper_loaded(Some((vec![3], wrapper_metadata())));
    assert_eq!(
        unwrapped(wrapped_all(begin(), vec![loaded(), Reply::Unwrapped(Err(e))])),
        Err(e)
    );
    let key_blob = KeyBlob { bytes: vec![4], force_reencrypt: true, sealed_with: None };
    let work = wrapped_all(
        begin(),
        vec![loaded(), Reply::Unwrapped(Ok(key_blob)), Reply::UpgradeDone(Err(e))],
    );
    assert_eq!(unwrapped(work), Err(e));
}

// ---------------------------------------------------------------------------------------
// Records
// ---------------------------------------------------------------------------------------
#[test]
fn records_of_calls() {
    let level = level();
    let uid = AppUid(10_123);
    let security_level = SecurityLevel::StrongBox;
    assert_eq!(
        level.records(Call::CreateOperation, uid, true),
        vec![Record::Latency { call: Call::CreateOperation, security_level, succeeded: true }]
    );
    let cases = [
        (Call::GenerateKey, KeyOrigin::Generated, AuditEvent::KeyGenerated),
        (Call::ImportKey, KeyOrigin::Imported, AuditEvent::KeyImported),
        (Call::ImportWrappedKey, KeyOrigin::SecurelyImported, AuditEvent::KeyImported),
    ];
    for (call, origin, event) in cases {
        for succeeded in [true, false] {
            assert_eq!(
                level.records(call, uid, succeeded),
                vec![
                    Record::KeyCreation { uid: 10_123, security_level, origin, succeeded },
                    Record::Latency { call, security_level, succeeded },
                    Record::Audit { event, succeeded },
                ]
            );
        }
    }
    assert_eq!(level.records(Call::ConvertStorageKeyToEphemeral, uid, true), vec![]);
    assert_eq!(
        level.records(Call::DeleteKey, uid, false),
        vec![Record::Audit { event: AuditEvent::KeyDeleted, succeeded: false }]
    );
}

#[test]
fn recorded_uid_is_the_low_half() {
    let records = level().records(Call::GenerateKey, AppUid((1 << 32) + 5), true);
    assert!(matches!(records[0], Record::KeyCreation { uid: 5, .. }));
    let records = level().records(Call::GenerateKey, AppUid(-1), true);
    assert!(matches!(records[0], Record::KeyCreation { uid: -1, .. }));
}

#[test]
fn calls_and_requests_are_watched() {
    let level = level();
    let security_level = Some(SecurityLevel::StrongBox);
    assert_eq!(level.watch_call(Call::GenerateKey), Watch { millis: Some(5000), security_level });
    assert_eq!(level.watch_call(Call::DeleteKey), Watch { millis: None, security_level });
    let params = vec![];
    let blob = vec![];
    let request = Request::GenerateKey { device: Device::Own, params: &params, attest_key: None };
    assert_eq!(level.watch(&request), Some(Watch { millis: Some(5000), security_level }));
    let chain = vec![];
    let request = Request::ProcessCertificateChain { chain: &chain, attestation_certs: &blob };
    assert_eq!(level.watch(&request), Some(Watch { millis: Some(1000), security_level }));
    let request = Request::DeleteKey { key_blob: &blob };
    assert_eq!(level.watch(&request), Some(Watch { millis: None, security_level }));
    let name = "default".to_string();
    let request = Request::StoreRkpdAttestationKey {
        rpc_name: &name,
        key_blob: &blob,
        upgraded_blob: &blob,
    };
    assert_eq!(level.watch(&request), Some(Watch { millis: None, security_level: None }));
    assert_eq!(level.watch(&Request::Clock), None);
    assert_eq!(level.watch(&Request::Nothing), None);
}
