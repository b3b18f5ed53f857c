//! Operations, upgrades of key blobs, and the calls on keys that their callers manage themselves.

use keystore2::create::CreateOperation;
use keystore2::delete::DeleteKey;
use keystore2::level::{KeyMintHardwareInfo, KeystoreSecurityLevel, PlatformRules};
use keystore2::load::Load;
use keystore2::request::{
    AlgorithmSource, AttestationKeyRef, LoadBits, LoggingInfo, Outcome, Reply, Request,
};
use keystore2::storage_key::ConvertStorageKey;
use keystore2::types::{
    Algorithm, AndroidUserId, AppUid, BeginResult, BlobMetaData, Caller, CreateOperationResponse,
    Device, Domain, EphemeralStorageKeyResponse, Error, ErrorCode, Handle, KeyBlob,
    KeyCreationResult, KeyDescriptor, KeyParameter, KeyParameterValue, KeyPerm, KeyPurpose,
    KsKeyParam, KsKeyParamValue, LoadedKey, ResponseCode, SecurityLevel, Tag, Uuid,
};
use keystore2::upgrade::{StoreUpgraded, Upgrade, Work};

fn level() -> KeystoreSecurityLevel {
    KeystoreSecurityLevel {
        security_level: SecurityLevel::TrustedEnvironment,
        hw_info: KeyMintHardwareInfo { version_number: 400, timestamp_token_required: true },
        km_uuid: Uuid(7),
        rules: PlatformRules {
            undefined_not_after: 1,
            aaid_failed_status: 2,
            device_id_tags: vec![],
            imei_tags: vec![Tag::AttestationIdImei, Tag::AttestationIdSecondImei],
        },
    }
}

fn caller() -> Caller {
    Caller { uid: AppUid(10_123), user: AndroidUserId(0) }
}

fn app_key() -> KeyDescriptor {
    KeyDescriptor {
        domain: Domain::App,
        nspace: 10_123,
        alias: Some("key".to_string()),
        blob: None,
    }
}

fn blob_key() -> KeyDescriptor {
    KeyDescriptor { domain: Domain::Blob, nspace: 0, alias: None, blob: Some(vec![1, 2, 3]) }
}

fn algorithm(a: Algorithm) -> KeyParameter {
    KeyParameter { tag: Tag::Algorithm, value: KeyParameterValue::Algorithm(a) }
}

fn purpose(p: i32) -> KeyParameter {
    KeyParameter { tag: Tag::Purpose, value: KeyParameterValue::KeyPurpose(KeyPurpose(p)) }
}

fn bytes(tag: Tag, b: &[u8]) -> KeyParameter {
    KeyParameter { tag, value: KeyParameterValue::Blob(b.to_vec()) }
}

fn granted() -> Reply {
    Reply::Status(Ok(()))
}

fn refused() -> Reply {
    Reply::Status(Err(Error::perm()))
}

fn km(code: ErrorCode) -> Error {
    Error::Km(code)
}

fn key_blob(force_reencrypt: bool) -> KeyBlob {
    KeyBlob { bytes: vec![5, 6], force_reencrypt, sealed_with: Some(Handle(77)) }
}

fn no_metadata() -> BlobMetaData {
    BlobMetaData { km_uuid: None, others: None }
}

fn begun(operation: Option<Handle>, params: Vec<KeyParameter>) -> BeginResult {
    BeginResult { challenge: 4711, params, operation }
}

fn created() -> KeyCreationResult {
    KeyCreationResult {
        key_blob: vec![8],
        key_characteristics: vec![],
        certificate_chain: vec![],
    }
}

// ---------------------------------------------------------------------------------------
// Loading
// ---------------------------------------------------------------------------------------
#[test]
fn database_asks_whether_the_key_may_be_used() {
    let key = app_key();
    let load = Load::Loading;
    assert_eq!(
        load.pending(&key, &key, caller(), LoadBits::Both),
        Request::LoadKeyEntry {
            import_as: &key,
            key: &key,
            caller: caller(),
            bits: LoadBits::Both,
        }
    );
    let found = KeyDescriptor { domain: Domain::KeyId, nspace: 5, alias: None, blob: None };
    let load = load.resume(false, Reply::AccessCheck { key: found.clone(), access: Some(3) });
    assert_eq!(
        load.pending(&key, &key, caller(), LoadBits::Both),
        Request::CheckKeyPermission { perm: KeyPerm::Use, key: &found, access: Some(3) }
    );
    let load = load.resume(false, granted());
    assert_eq!(
        load.pending(&key, &key, caller(), LoadBits::Both),
        Request::ReturnStatus(Ok(()))
    );
    assert!(matches!(load.resume(false, Reply::Returned), Load::Loading));
}

#[test]
fn forced_operations_need_a_further_permission() {
    let key = app_key();
    let check = || Reply::AccessCheck { key: app_key(), access: None };
    let load = Load::Loading.resume(true, check()).resume(true, granted());
    assert_eq!(
        load.pending(&key, &key, caller(), LoadBits::Both),
        Request::CheckKeyPermission { perm: KeyPerm::ReqForcedOp, key: &key, access: None }
    );
    let load = load.resume(true, refused());
    assert_eq!(
        load.pending(&key, &key, caller(), LoadBits::Both),
        Request::ReturnStatus(Err(Error::perm()))
    );
    // Who may not use a key is not asked about force.
    let load = Load::Loading.resume(true, check()).resume(true, refused());
    assert!(matches!(load, Load::Verdict(Err(e)) if e == Error::perm()));
}

// ---------------------------------------------------------------------------------------
// Upgrades
// ---------------------------------------------------------------------------------------
fn store_all(work: StoreUpgraded, replies: Vec<Reply>) -> StoreUpgraded {
    replies.into_iter().fold(work, |w, r| w.resume(r))
}

#[test]
fn upgraded_blob_is_encrypted_and_stored_under_its_device() {
    let old = key_blob(false);
    let work = KeystoreSecurityLevel::store_upgraded_keyblob(42, Some(Uuid(7)), Some(vec![9]));
    assert_eq!(
        work.pending(&old),
        Request::ReencryptIfRequired { key_blob: &old, upgraded_blob: &vec![9] }
    );
    let metadata = BlobMetaData { km_uuid: Some(Uuid(1)), others: Some(Handle(3)) };
    let work = work.resume(Reply::Reencrypted(Ok((vec![10], Some(metadata)))));
    assert_eq!(
        work.pending(&old),
        Request::SetKeyBlob {
            key_id: 42,
            blob: &vec![10],
            blob_metadata: BlobMetaData { km_uuid: Some(Uuid(7)), others: Some(Handle(3)) },
        }
    );
    let work = work.resume(granted());
    assert!(matches!(work, StoreUpgraded::Done(Ok(()))));
    assert_eq!(work.pending(&old), Request::Nothing);
}

#[test]
fn blob_without_a_device_or_metadata_gets_none() {
    let old = key_blob(false);
    let work = KeystoreSecurityLevel::store_upgraded_keyblob(42, None, None);
    // Without an upgraded blob it is the old one.
    assert_eq!(
        work.pending(&old),
        Request::ReencryptIfRequired { key_blob: &old, upgraded_blob: &vec![5, 6] }
    );
    let work = work.resume(Reply::Reencrypted(Ok((vec![10], None))));
    assert_eq!(
        work.pending(&old),
        Request::SetKeyBlob { key_id: 42, blob: &vec![10], blob_metadata: no_metadata() }
    );
}

#[test]
fn failures_to_store_a_blob_come_back() {
    let start = || KeystoreSecurityLevel::store_upgraded_keyblob(42, None, None);
    let e = Error::Foreign(Handle(8));
    let work = store_all(start(), vec![Reply::Reencrypted(Err(e))]);
    assert!(matches!(work, StoreUpgraded::Done(Err(x)) if x == e));
    let work = store_all(
        start(),
        vec![Reply::Reencrypted(Ok((vec![10], None))), Reply::Status(Err(e))],
    );
    assert!(matches!(work, StoreUpgraded::Done(Err(x)) if x == e));
    // A reply that is not due changes nothing.
    let work = store_all(start(), vec![Reply::Returned, granted()]);
    assert!(matches!(work, StoreUpgraded::Reencrypting { key_id: 42, .. }));
}

fn run_all(work: Work, run: Upgrade, replies: Vec<Reply>) -> Upgrade {
    let level = level();
    replies.into_iter().fold(run, |u, r| u.resume(&level, work, r))
}

fn begin_work<'a>(params: &'a Vec<KeyParameter>, key_id: Option<i64>) -> Work<'a> {
    Work::Begin {
        purpose: KeyPurpose(2),
        params,
        auth_token: Some(Handle(1)),
        uid: AppUid(10_123),
        forced: true,
        key_id,
    }
}

fn run_of(key_id: Option<i64>, force_reencrypt: bool) -> Upgrade {
    level().upgrade_keyblob_if_required_with(key_id, key_blob(force_reencrypt), Some(Uuid(7)))
}

#[test]
fn run_without_an_upgrade_writes_nothing() {
    let params = vec![algorithm(Algorithm::Ec)];
    let work = begin_work(&params, Some(42));
    let run = run_of(Some(42), false);
    assert_eq!(
        run.pending(&level(), work),
        Request::RunWithUpgrade {
            device: Device::Own,
            version: 400,
            key_blob: &vec![5, 6],
            params: Some(&params),
        }
    );
    let run = run_all(work, run, vec![Reply::OperationCalled(vec![5, 6])]);
    assert_eq!(
        run.pending(&level(), work),
        Request::Begin {
            purpose: KeyPurpose(2),
            key_blob: &vec![5, 6],
            params: &params,
            auth_token: Some(Handle(1)),
        }
    );
    let b = begun(Some(Handle(2)), vec![]);
    let run = run_all(work, run, vec![Reply::Begun(Ok(b.clone()))]);
    assert_eq!(
        run.pending(&level(), work),
        Request::ReturnOutcome(&Ok(Outcome::Begun(b.clone())))
    );
    let run = run_all(
        work,
        run,
        vec![Reply::Returned, Reply::UpgradeDone(Ok((Outcome::Begun(b.clone()), None)))],
    );
    assert!(matches!(run, Upgrade::Done(Ok((Outcome::Begun(x), None))) if x == b));
}

#[test]
fn upgraded_blob_is_stored_once() {
    let params = vec![];
    let work = begin_work(&params, Some(42));
    let run = run_all(work, run_of(Some(42), true), vec![Reply::NewBlob(vec![9])]);
    let old = key_blob(true);
    assert_eq!(
        run.pending(&level(), work),
        Request::ReencryptIfRequired { key_blob: &old, upgraded_blob: &vec![9] }
    );
    let run = run_all(work, run, vec![Reply::Reencrypted(Ok((vec![10], None))), granted()]);
    assert_eq!(run.pending(&level(), work), Request::ReturnStatus(Ok(())));
    let run = run_all(work, run, vec![Reply::Returned]);
    // A second upgraded blob finds no key to be stored for.
    let run = run_all(work, run, vec![Reply::NewBlob(vec![11])]);
    assert_eq!(run.pending(&level(), work), Request::ReturnStatus(Ok(())));
    // And the old one, though due for it, is not encrypted anew.
    let b = begun(Some(Handle(2)), vec![]);
    let run = run_all(
        work,
        run,
        vec![Reply::Returned, Reply::UpgradeDone(Ok((Outcome::Begun(b), Some(vec![9]))))],
    );
    assert!(matches!(run, Upgrade::Done(Ok((_, Some(up)))) if up == vec![9]));
}

#[test]
fn upgraded_blob_without_an_id_is_not_stored() {
    let params = vec![];
    let work = begin_work(&params, None);
    let run = run_all(work, run_of(None, true), vec![Reply::NewBlob(vec![9])]);
    assert_eq!(run.pending(&level(), work), Request::ReturnStatus(Ok(())));
}

#[test]
fn failure_to_store_goes_back_to_the_run() {
    let params = vec![];
    let work = begin_work(&params, Some(42));
    let e = Error::Foreign(Handle(8));
    let run = run_all(
        work,
        run_of(Some(42), false),
        vec![Reply::NewBlob(vec![9]), Reply::Reencrypted(Err(e))],
    );
    assert_eq!(run.pending(&level(), work), Request::ReturnStatus(Err(e)));
    let run = run_all(work, run, vec![Reply::Returned, Reply::UpgradeDone(Err(e))]);
    assert!(matches!(run, Upgrade::Done(Err(x)) if x == e));
}

#[test]
fn old_blob_is_encrypted_anew_where_that_is_due() {
    let params = vec![];
    let work = begin_work(&params, Some(42));
    let done = || Reply::UpgradeDone(Ok((Outcome::Begun(begun(Some(Handle(2)), vec![])), None)));
    let run = run_all(work, run_of(Some(42), true), vec![done()]);
    let old = key_blob(true);
    assert_eq!(
        run.pending(&level(), work),
        Request::ReencryptIfRequired { key_blob: &old, upgraded_blob: &vec![5, 6] }
    );
    let run = run_all(work, run, vec![Reply::Reencrypted(Ok((vec![12], None)))]);
    assert_eq!(
        run.pending(&level(), work),
        Request::SetKeyBlob {
            key_id: 42,
            blob: &vec![12],
            blob_metadata: BlobMetaData { km_uuid: Some(Uuid(7)), others: None },
        }
    );
    assert!(matches!(run_all(work, run, vec![granted()]), Upgrade::Done(Ok((_, None)))));
    // A failure to do so is the answer.
    let e = Error::Foreign(Handle(8));
    let run = run_all(work, run_of(Some(42), true), vec![done(), Reply::Reencrypted(Err(e))]);
    assert!(matches!(run, Upgrade::Done(Err(x)) if x == e));
}

#[test]
fn outcome_of_another_kind_is_no_answer() {
    let params = vec![];
    let work = begin_work(&params, Some(42));
    let made = Reply::UpgradeDone(Ok((Outcome::Created(created()), None)));
    let run = run_all(work, run_of(Some(42), false), vec![made]);
    assert!(matches!(run, Upgrade::Running(_)));
}

#[test]
fn full_device_is_pruned_and_tried_again() {
    let params = vec![];
    let work = begin_work(&params, Some(42));
    let full = || Reply::Begun(Err(km(ErrorCode::TooManyOperations)));
    let run = run_all(
        work,
        run_of(Some(42), false),
        vec![Reply::OperationCalled(vec![5, 6]), full()],
    );
    assert_eq!(
        run.pending(&level(), work),
        Request::PruneOperations { uid: AppUid(10_123), forced: true }
    );
    let run = run_all(work, run, vec![granted()]);
    assert_eq!(
        run.pending(&level(), work),
        Request::Begin {
            purpose: KeyPurpose(2),
            key_blob: &vec![5, 6],
            params: &params,
            auth_token: Some(Handle(1)),
        }
    );
    let e = Error::Rc(ResponseCode::Other(18));
    let run = run_all(work, run, vec![full(), Reply::Status(Err(e))]);
    assert_eq!(run.pending(&level(), work), Request::ReturnOutcome(&Err(e)));
}

#[test]
fn invalid_blob_of_a_stored_key_is_noted() {
    let params = vec![];
    let work = begin_work(&params, Some(42));
    let invalid = || Reply::Begun(Err(km(ErrorCode::InvalidKeyBlob)));
    let called = || vec![Reply::OperationCalled(vec![5, 6]), invalid()];
    let run = run_all(work, run_of(Some(42), false), called());
    assert_eq!(run.pending(&level(), work), Request::LoadKeyDescriptor { key_id: 42 });
    let run = run_all(work, run, vec![Reply::Descriptor(Ok(Some(app_key())))]);
    assert_eq!(
        run.pending(&level(), work),
        Request::LogKeyIntegrityViolation { key: &app_key() }
    );
    let run = run_all(work, run, vec![Reply::Returned]);
    let failure = Err(km(ErrorCode::InvalidKeyBlob));
    assert_eq!(run.pending(&level(), work), Request::ReturnOutcome(&failure));
    // A key that is not found, or not there to be found, is not noted.
    for reply in [Reply::Descriptor(Ok(None)), Reply::Descriptor(Err(Error::sys()))] {
        let run = run_all(work, run_of(Some(42), false), called());
        let run = run_all(work, run, vec![reply]);
        assert_eq!(run.pending(&level(), work), Request::ReturnOutcome(&failure));
    }
    let self_managed = begin_work(&params, None);
    let run = run_all(self_managed, run_of(None, false), called());
    assert_eq!(run.pending(&level(), self_managed), Request::ReturnOutcome(&failure));
}

#[test]
fn wrapped_keys_are_imported_on_the_blob_that_is_called_for() {
    let params = vec![algorithm(Algorithm::Aes)];
    let wrapped = vec![1];
    let mask = vec![2];
    let work = Work::ImportWrapped {
        wrapped_data: &wrapped,
        masking_key: &mask,
        params: &params,
        password_sid: 3,
        fingerprint_sid: -1,
    };
    let run = run_of(Some(42), false);
    assert_eq!(
        run.pending(&level(), work),
        Request::RunWithUpgrade {
            device: Device::Own,
            version: 400,
            key_blob: &vec![5, 6],
            params: None,
        }
    );
    let run = run_all(work, run, vec![Reply::OperationCalled(vec![6])]);
    assert_eq!(
        run.pending(&level(), work),
        Request::ImportWrappedKey {
            wrapped_data: &wrapped,
            wrapping_key_blob: &vec![6],
            masking_key: &mask,
            params: &params,
            password_sid: 3,
            fingerprint_sid: -1,
        }
    );
    let e = km(ErrorCode::KeyRequiresUpgrade);
    let run = run_all(work, run, vec![Reply::Created(Err(e))]);
    assert_eq!(run.pending(&level(), work), Request::ReturnOutcome(&Err(e)));
}

#[test]
fn test_rkpd_attestation_key_upgrade() {
    let level = level();
    let rpc_name = "default".to_string();
    let rkpd_blob = vec![1, 1, 2, 3];
    let issuer_subject = vec![0x30, 0x00];
    let params = vec![
        algorithm(Algorithm::Aes),
        bytes(Tag::AttestationChallenge, &[0; 16]),
        KeyParameter { tag: Tag::KeySize, value: KeyParameterValue::Integer(128) },
    ];
    let work = Work::GenerateProvisioned { params: &params, issuer_subject: &issuer_subject };

    for upgrade_due in [false, true] {
        let mut key_upgraded = false;
        let mut run =
            level.upgrade_rkpd_keyblob_if_required_with(rpc_name.clone(), rkpd_blob.clone());
        assert_eq!(
            run.pending(&level, work),
            Request::RunWithUpgrade {
                device: Device::Own,
                version: 400,
                key_blob: &rkpd_blob,
                params: None,
            }
        );
        let mut events = vec![];
        if upgrade_due {
            events.push(Reply::OperationCalled(rkpd_blob.clone()));
            events.push(Reply::NewBlob(vec![5, 8]));
            events.push(Reply::OperationCalled(vec![5, 8]));
        } else {
            events.push(Reply::OperationCalled(rkpd_blob.clone()));
        }
        let upgraded = if upgrade_due { Some(vec![5, 8]) } else { None };
        events.push(Reply::UpgradeDone(Ok((Outcome::Created(created()), upgraded.clone()))));
        for event in events {
            run = run.resume(&level, work, event);
            loop {
                let reply = match run.pending(&level, work) {
                    Request::GenerateKey { device, params: p, attest_key } => {
                        assert_eq!(device, Device::Own);
                        assert_eq!(p, &params);
                        let AttestationKeyRef { key_blob, issuer_subject_name } =
                            attest_key.unwrap();
                        assert_eq!(issuer_subject_name, &issuer_subject);
                        if upgrade_due && key_blob == &rkpd_blob {
                            Reply::Created(Err(km(ErrorCode::KeyRequiresUpgrade)))
                        } else {
                            Reply::Created(Ok(created()))
                        }
                    }
                    Request::StoreRkpdAttestationKey { rpc_name: name, key_blob, upgraded_blob } => {
                        // Asked for only if a key upgrade was performed.
                        key_upgraded = true;
                        assert_eq!(name, &rpc_name);
                        assert_eq!(key_blob, &rkpd_blob);
                        assert_eq!(upgraded_blob, &vec![5, 8]);
                        granted()
                    }
                    Request::ReturnOutcome(_) | Request::ReturnStatus(Ok(())) => Reply::Returned,
                    Request::RunWithUpgrade { .. } | Request::Nothing => break,
                    other => panic!("{:?}", other),
                };
                run = run.resume(&level, work, reply);
            }
        }
        assert_eq!(key_upgraded, upgrade_due);
        assert!(matches!(
            run,
            Upgrade::Done(Ok((Outcome::Created(made), up))) if made == created() && up == upgraded
        ));
    }
}

#[test]
fn provisioned_keys_get_a_second_attempt() {
    let params = vec![bytes(Tag::AttestationIdImei, &[1])];
    let swapped = vec![bytes(Tag::AttestationIdSecondImei, &[1])];
    let issuer_subject = vec![3];
    let work = Work::GenerateProvisioned { params: &params, issuer_subject: &issuer_subject };
    let run = level().upgrade_rkpd_keyblob_if_required_with("default".to_string(), vec![4]);
    let run = run_all(
        work,
        run,
        vec![
            Reply::OperationCalled(vec![4]),
            Reply::Created(Err(km(ErrorCode::CannotAttestIds))),
        ],
    );
    assert_eq!(
        run.pending(&level(), work),
        Request::GenerateKey {
            device: Device::Own,
            params: &swapped,
            attest_key: Some(AttestationKeyRef {
                key_blob: &vec![4],
                issuer_subject_name: &issuer_subject,
            }),
        }
    );
    let run = run_all(work, run, vec![Reply::Created(Ok(created()))]);
    assert_eq!(
        run.pending(&level(), work),
        Request::ReturnOutcome(&Ok(Outcome::Created(created())))
    );
}

// ---------------------------------------------------------------------------------------
// Creation of operations
// ---------------------------------------------------------------------------------------
fn create_all(work: CreateOperation, replies: Vec<Reply>) -> CreateOperation {
    let level = level();
    replies.into_iter().fold(work, |w, r| w.resume(&level, r))
}

fn result(work: CreateOperation) -> Result<CreateOperationResponse, Error> {
    match work {
        CreateOperation::Done(r) => r,
        other => panic!("still waits for {:?}", other.pending(&level())),
    }
}

fn key_parameters() -> Vec<KsKeyParam> {
    vec![KsKeyParam {
        value: KsKeyParamValue::Km(algorithm(Algorithm::Ec)),
        security_level: SecurityLevel::TrustedEnvironment,
    }]
}

fn metadata() -> BlobMetaData {
    BlobMetaData { km_uuid: Some(Uuid(6)), others: Some(Handle(66)) }
}

fn loaded(blob: Option<Vec<u8>>) -> Reply {
    Reply::Loaded(Ok(LoadedKey {
        key_id: 42,
        attested: true,
        blob_info: blob.map(|b| (b, metadata())),
        key_parameters: key_parameters(),
    }))
}

fn sign_params() -> Vec<KeyParameter> {
    vec![purpose(2), bytes(Tag::Other(5), &[1])]
}

#[test]
fn operation_with_a_stored_key() {
    let level = level();
    let key = app_key();
    let rest = vec![bytes(Tag::Other(5), &[1])];
    let work = level.create_operation(caller(), key.clone(), sign_params(), false);
    assert_eq!(
        work.pending(&level),
        Request::LoadKeyEntry {
            import_as: &key,
            key: &key,
            caller: caller(),
            bits: LoadBits::Both,
        }
    );
    let work = create_all(
        work,
        vec![
            Reply::AccessCheck { key: key.clone(), access: None },
            granted(),
            Reply::Returned,
            loaded(Some(vec![3, 3])),
        ],
    );
    assert_eq!(
        work.pending(&level),
        Request::AuthorizeCreate {
            purpose: KeyPurpose(2),
            key_properties: Some((42, &key_parameters())),
            params: &rest,
            timestamp_token_required: true,
        }
    );
    let work = create_all(work, vec![Reply::Authorized(Ok((Some(Handle(1)), Handle(2))))]);
    assert_eq!(
        work.pending(&level),
        Request::UnwrapKeyIfRequired { blob_metadata: metadata(), blob: &vec![3, 3] }
    );
    let work = create_all(
        work,
        vec![Reply::Unwrapped(Ok(key_blob(false))), Reply::OperationCalled(vec![5, 6])],
    );
    assert_eq!(
        work.pending(&level),
        Request::Begin {
            purpose: KeyPurpose(2),
            key_blob: &vec![5, 6],
            params: &rest,
            auth_token: Some(Handle(1)),
        }
    );
    let b = begun(Some(Handle(3)), vec![bytes(Tag::Other(8), &[7])]);
    let work = create_all(
        work,
        vec![
            Reply::Begun(Ok(b.clone())),
            Reply::Returned,
            Reply::UpgradeDone(Ok((Outcome::Begun(b), Some(vec![9])))),
        ],
    );
    // The old blob is not due for new encryption.
    assert_eq!(
        work.pending(&level),
        Request::FinalizeCreateAuthorization { auth_info: Handle(2), challenge: 4711 }
    );
    let work = create_all(work, vec![Reply::Challenge(Some(12))]);
    assert_eq!(
        work.pending(&level),
        Request::ParseAlgorithm(AlgorithmSource::Stored(&key_parameters()))
    );
    let work = create_all(work, vec![Reply::AlgorithmCode(3)]);
    assert_eq!(
        work.pending(&level),
        Request::CreateOperation {
            operation: Handle(3),
            uid: AppUid(10_123),
            auth_info: Handle(2),
            forced: false,
            logging_info: LoggingInfo {
                security_level: SecurityLevel::TrustedEnvironment,
                purpose: KeyPurpose(2),
                algorithm: 3,
                op_params: &rest,
                key_upgraded: true,
                key_attested: true,
            },
        }
    );
    let work = create_all(work, vec![Reply::Registered(Handle(4))]);
    assert_eq!(work.pending(&level), Request::OperationBinder { operation: Handle(4) });
    let work = create_all(work, vec![Reply::Interface(Ok(Handle(5)))]);
    assert_eq!(work.pending(&level), Request::Nothing);
    // The upgraded blob does not go back for a stored key.
    assert_eq!(
        result(work),
        Ok(CreateOperationResponse {
            operation: Handle(5),
            operation_challenge: Some(12),
            parameters: Some(vec![bytes(Tag::Other(8), &[7])]),
            upgraded_blob: None,
        })
    );
}

#[test]
fn stored_key_is_upgraded_first() {
    let level = level();
    let key = app_key();
    let rest = vec![bytes(Tag::Other(5), &[1])];
    let work = level.create_operation(caller(), key.clone(), sign_params(), false);
    let work = create_all(
        work,
        vec![
            Reply::AccessCheck { key: key.clone(), access: None },
            granted(),
            Reply::Returned,
            loaded(Some(vec![3, 3])),
            Reply::Authorized(Ok((Some(Handle(1)), Handle(2)))),
            Reply::Unwrapped(Ok(key_blob(true))),
            Reply::OperationCalled(vec![5, 6]),
            Reply::Begun(Err(km(ErrorCode::KeyRequiresUpgrade))),
            Reply::Returned,
            Reply::NewBlob(vec![9]),
            Reply::Reencrypted(Ok((vec![10], None))),
        ],
    );
    assert_eq!(
        work.pending(&level),
        Request::SetKeyBlob {
            key_id: 42,
            blob: &vec![10],
            blob_metadata: BlobMetaData { km_uuid: Some(Uuid(6)), others: None },
        }
    );
    let work = create_all(
        work,
        vec![granted(), Reply::Returned, Reply::OperationCalled(vec![9])],
    );
    assert_eq!(
        work.pending(&level),
        Request::Begin {
            purpose: KeyPurpose(2),
            key_blob: &vec![9],
            params: &rest,
            auth_token: Some(Handle(1)),
        }
    );
    let b = begun(Some(Handle(3)), vec![]);
    let work = create_all(
        work,
        vec![
            Reply::Begun(Ok(b.clone())),
            Reply::Returned,
            Reply::UpgradeDone(Ok((Outcome::Begun(b), Some(vec![9])))),
            Reply::Challenge(None),
            Reply::AlgorithmCode(3),
            Reply::Registered(Handle(4)),
            Reply::Interface(Ok(Handle(5))),
        ],
    );
    assert_eq!(
        result(work),
        Ok(CreateOperationResponse {
            operation: Handle(5),
            operation_challenge: None,
            parameters: None,
            upgraded_blob: None,
        })
    );
}

#[test]
fn operation_begins_once_there_is_room() {
    let level = level();
    let key = app_key();
    let work = level.create_operation(caller(), key.clone(), sign_params(), true);
    let full = || Reply::Begun(Err(km(ErrorCode::TooManyOperations)));
    let work = create_all(
        work,
        vec![
            loaded(Some(vec![3, 3])),
            Reply::Authorized(Ok((None, Handle(2)))),
            Reply::Unwrapped(Ok(key_blob(false))),
            Reply::OperationCalled(vec![5, 6]),
            full(),
            granted(),
            full(),
        ],
    );
    assert_eq!(
        work.pending(&level),
        Request::PruneOperations { uid: AppUid(10_123), forced: true }
    );
    let b = begun(Some(Handle(3)), vec![]);
    let work = create_all(
        work,
        vec![
            granted(),
            Reply::Begun(Ok(b.clone())),
            Reply::Returned,
            Reply::UpgradeDone(Ok((Outcome::Begun(b), None))),
            Reply::Challenge(None),
            Reply::AlgorithmCode(3),
            Reply::Registered(Handle(4)),
            Reply::Interface(Ok(Handle(5))),
        ],
    );
    assert_eq!(result(work).map(|r| r.operation), Ok(Handle(5)));
}

#[test]
fn key_that_cannot_be_kept_ends_the_creation() {
    let level = level();
    let e = Error::Foreign(Handle(8));
    let work = level.create_operation(caller(), app_key(), sign_params(), false);
    let work = create_all(
        work,
        vec![
            loaded(Some(vec![3, 3])),
            Reply::Authorized(Ok((None, Handle(2)))),
            Reply::Unwrapped(Ok(key_blob(true))),
            Reply::NewBlob(vec![9]),
            Reply::Reencrypted(Ok((vec![10], None))),
            Reply::Status(Err(e)),
        ],
    );
    assert_eq!(work.pending(&level), Request::ReturnStatus(Err(e)));
    let work = create_all(work, vec![Reply::Returned, Reply::UpgradeDone(Err(e))]);
    assert_eq!(result(work), Err(e));
}

#[test]
fn self_managed_key_is_upgraded_and_goes_back() {
    let level = level();
    let mut key = blob_key();
    key.blob = Some(vec![3, 3]);
    let work = level.create_operation(caller(), key, sign_params(), false);
    let b = begun(Some(Handle(3)), vec![]);
    let work = create_all(
        work,
        vec![
            granted(),
            Reply::Authorized(Ok((None, Handle(2)))),
            Reply::Unwrapped(Ok(key_blob(false))),
            Reply::OperationCalled(vec![5, 6]),
            Reply::Begun(Err(km(ErrorCode::KeyRequiresUpgrade))),
            Reply::Returned,
            Reply::NewBlob(vec![9]),
        ],
    );
    // There is no stored key to write it for.
    assert_eq!(work.pending(&level), Request::ReturnStatus(Ok(())));
    let work = create_all(
        work,
        vec![
            Reply::Returned,
            Reply::OperationCalled(vec![9]),
            Reply::Begun(Ok(b.clone())),
            Reply::Returned,
            Reply::UpgradeDone(Ok((Outcome::Begun(b), Some(vec![9])))),
            Reply::Challenge(None),
            Reply::AlgorithmCode(3),
            Reply::Registered(Handle(4)),
            Reply::Interface(Ok(Handle(5))),
        ],
    );
    assert_eq!(result(work).map(|r| r.upgraded_blob), Ok(Some(vec![9])));
}

#[test]
fn operation_with_a_self_managed_key() {
    let level = level();
    let rest = vec![bytes(Tag::Other(5), &[1])];
    let work = level.create_operation(caller(), blob_key(), sign_params(), true);
    assert_eq!(
        work.pending(&level),
        Request::CheckKeyPermission { perm: KeyPerm::Use, key: &blob_key(), access: None }
    );
    let work = create_all(work, vec![granted()]);
    assert_eq!(
        work.pending(&level),
        Request::CheckKeyPermission { perm: KeyPerm::ReqForcedOp, key: &blob_key(), access: None }
    );
    let work = create_all(work, vec![granted()]);
    assert_eq!(
        work.pending(&level),
        Request::AuthorizeCreate {
            purpose: KeyPurpose(2),
            key_properties: None,
            params: &rest,
            timestamp_token_required: true,
        }
    );
    let work = create_all(work, vec![Reply::Authorized(Ok((None, Handle(2))))]);
    assert_eq!(
        work.pending(&level),
        Request::UnwrapKeyIfRequired { blob_metadata: no_metadata(), blob: &vec![1, 2, 3] }
    );
    let b = begun(Some(Handle(3)), vec![]);
    let work = create_all(
        work,
        vec![
            Reply::Unwrapped(Ok(key_blob(true))),
            Reply::UpgradeDone(Ok((Outcome::Begun(b), Some(vec![9])))),
            Reply::Challenge(None),
        ],
    );
    assert_eq!(
        work.pending(&level),
        Request::ParseAlgorithm(AlgorithmSource::Operation(&rest))
    );
    let work = create_all(
        work,
        vec![
            Reply::AlgorithmCode(1),
            Reply::Registered(Handle(4)),
            Reply::Interface(Ok(Handle(5))),
        ],
    );
    // The upgraded blob goes back, and an empty list of parameters does not.
    assert_eq!(
        result(work),
        Ok(CreateOperationResponse {
            operation: Handle(5),
            operation_challenge: None,
            parameters: None,
            upgraded_blob: Some(vec![9]),
        })
    );
}

#[test]
fn operations_need_permissions() {
    let start = |forced| level().create_operation(caller(), blob_key(), sign_params(), forced);
    assert_eq!(result(create_all(start(true), vec![refused()])), Err(Error::perm()));
    let work = create_all(start(true), vec![granted(), refused()]);
    assert_eq!(result(work), Err(Error::perm()));
    // Without force the first permission is enough.
    let work = create_all(start(false), vec![granted()]);
    assert!(matches!(work.pending(&level()), Request::AuthorizeCreate { .. }));
}

#[test]
fn refused_stored_key_does_not_begin() {
    let level = level();
    let check = || Reply::AccessCheck { key: app_key(), access: None };
    let gone = Error::Rc(ResponseCode::PermissionDenied);
    // The use, or the force, is refused; the database is told, and does not hand out the key.
    for (forced, answers) in [
        (false, vec![refused()]),
        (true, vec![refused()]),
        (true, vec![granted(), refused()]),
    ] {
        let mut work = level.create_operation(caller(), app_key(), sign_params(), forced);
        let mut replies = vec![check()];
        replies.extend(answers);
        for reply in replies {
            work = work.resume(&level, reply);
            assert!(!matches!(work.pending(&level), Request::Begin { .. }));
        }
        assert_eq!(work.pending(&level), Request::ReturnStatus(Err(Error::perm())));
        let work = create_all(work, vec![Reply::Returned, Reply::Loaded(Err(gone))]);
        assert_eq!(result(work), Err(gone));
    }
}

#[test]
fn force_is_not_asked_about_without_force() {
    let level = level();
    let work = level.create_operation(caller(), app_key(), sign_params(), false);
    let work = create_all(
        work,
        vec![Reply::AccessCheck { key: app_key(), access: None }, granted()],
    );
    assert_eq!(work.pending(&level), Request::ReturnStatus(Ok(())));
    let work = level.create_operation(caller(), blob_key(), sign_params(), false);
    let work = create_all(work, vec![granted()]);
    assert!(matches!(work.pending(&level), Request::AuthorizeCreate { .. }));
}

#[test]
fn operations_need_a_blob_and_a_purpose() {
    let level = level();
    let mut no_blob = blob_key();
    no_blob.blob = None;
    let work = level.create_operation(caller(), no_blob, sign_params(), false);
    assert_eq!(result(create_all(work, vec![granted()])), Err(Error::sys()));
    let work = level.create_operation(caller(), app_key(), sign_params(), false);
    assert_eq!(result(create_all(work, vec![loaded(None)])), Err(Error::sys()));
    let work = level.create_operation(caller(), app_key(), vec![], false);
    assert_eq!(
        result(create_all(work, vec![loaded(Some(vec![1]))])),
        Err(km(ErrorCode::InvalidArgument))
    );
    let malformed = KeyParameter { tag: Tag::Purpose, value: KeyParameterValue::Integer(2) };
    let work = level.create_operation(caller(), app_key(), vec![malformed], false);
    assert_eq!(
        result(create_all(work, vec![loaded(Some(vec![1]))])),
        Err(km(ErrorCode::InvalidArgument))
    );
}

#[test]
fn failures_of_services_end_the_creation() {
    let e = Error::Foreign(Handle(99));
    let start = || level().create_operation(caller(), app_key(), sign_params(), false);
    let authorized = || Reply::Authorized(Ok((None, Handle(2))));
    let unwrapped = || Reply::Unwrapped(Ok(key_blob(false)));
    let done = |operation| {
        Reply::UpgradeDone(Ok((Outcome::Begun(begun(operation, vec![])), None)))
    };
    let blob = || loaded(Some(vec![1]));
    assert_eq!(result(create_all(start(), vec![Reply::Loaded(Err(e))])), Err(e));
    assert_eq!(result(create_all(start(), vec![blob(), Reply::Authorized(Err(e))])), Err(e));
    assert_eq!(
        result(create_all(start(), vec![blob(), authorized(), Reply::Unwrapped(Err(e))])),
        Err(e)
    );
    assert_eq!(
        result(create_all(
            start(),
            vec![blob(), authorized(), unwrapped(), Reply::UpgradeDone(Err(e))]
        )),
        Err(e)
    );
    // A device that begins without an operation.
    assert_eq!(
        result(create_all(
            start(),
            vec![
                blob(),
                authorized(),
                unwrapped(),
                done(None),
                Reply::Challenge(None),
                Reply::AlgorithmCode(0),
            ]
        )),
        Err(Error::sys())
    );
    assert_eq!(
        result(create_all(
            start(),
            vec![
                blob(),
                authorized(),
                unwrapped(),
                done(Some(Handle(3))),
                Reply::Challenge(None),
                Reply::AlgorithmCode(0),
                Reply::Registered(Handle(4)),
                Reply::Interface(Err(e)),
                Reply::Interface(Ok(Handle(5))),
            ]
        )),
        Err(e)
    );
}

// ---------------------------------------------------------------------------------------
// Deletion
// ---------------------------------------------------------------------------------------
#[test]
fn deletion_of_a_blob() {
    let level = level();
    let work = level.delete_key(blob_key());
    assert_eq!(
        work.pending(),
        Request::CheckKeyPermission { perm: KeyPerm::Delete, key: &blob_key(), access: None }
    );
    let work = work.resume(granted());
    assert_eq!(work.pending(), Request::DeleteKey { key_blob: &vec![1, 2, 3] });
    let work = work.resume(granted());
    assert_eq!(work.pending(), Request::Nothing);
    assert!(matches!(work.resume(refused()), DeleteKey::Done(Ok(()))));
}

#[test]
fn deletion_is_refused() {
    let level = level();
    let invalid = km(ErrorCode::InvalidArgument);
    assert!(matches!(level.delete_key(app_key()), DeleteKey::Done(Err(e)) if e == invalid));
    let mut no_blob = blob_key();
    no_blob.blob = None;
    assert!(matches!(level.delete_key(no_blob), DeleteKey::Done(Err(e)) if e == invalid));
    let work = level.delete_key(blob_key()).resume(refused());
    assert!(matches!(work, DeleteKey::Done(Err(e)) if e == Error::perm()));
    let e = km(ErrorCode::Other(-100));
    let work = level.delete_key(blob_key()).resume(granted()).resume(Reply::Status(Err(e)));
    assert!(matches!(work, DeleteKey::Done(Err(x)) if x == e));
}

// ---------------------------------------------------------------------------------------
// Storage keys
// ---------------------------------------------------------------------------------------
fn converted(replies: Vec<Reply>) -> Result<EphemeralStorageKeyResponse, Error> {
    let start = level().convert_storage_key_to_ephemeral(blob_key());
    match replies.into_iter().fold(start, |w, r| w.resume(r)) {
        ConvertStorageKey::Done(r) => r,
        other => panic!("still waits for {:?}", other.pending()),
    }
}

#[test]
fn storage_key_is_converted() {
    let work = level().convert_storage_key_to_ephemeral(blob_key());
    assert_eq!(
        work.pending(),
        Request::CheckKeyPermission {
            perm: KeyPerm::ConvertStorageKeyToEphemeral,
            key: &blob_key(),
            access: None,
        }
    );
    let work = work.resume(granted());
    assert_eq!(
        work.pending(),
        Request::ConvertStorageKeyToEphemeral { key_blob: &vec![1, 2, 3] }
    );
    assert_eq!(
        converted(vec![granted(), Reply::Bytes(Ok(vec![7]))]),
        Ok(EphemeralStorageKeyResponse { ephemeral_key: vec![7], upgraded_blob: None })
    );
}

#[test]
fn storage_key_is_upgraded_once() {
    let due = || Reply::Bytes(Err(km(ErrorCode::KeyRequiresUpgrade)));
    let work = level().convert_storage_key_to_ephemeral(blob_key()).resume(granted()).resume(due());
    assert_eq!(work.pending(), Request::UpgradeKey { key_blob: &vec![1, 2, 3] });
    let work = work.resume(Reply::Bytes(Ok(vec![4])));
    assert_eq!(work.pending(), Request::ConvertStorageKeyToEphemeral { key_blob: &vec![4] });
    let upgraded = || Reply::Bytes(Ok(vec![4]));
    assert_eq!(
        converted(vec![granted(), due(), upgraded(), Reply::Bytes(Ok(vec![7]))]),
        Ok(EphemeralStorageKeyResponse { ephemeral_key: vec![7], upgraded_blob: Some(vec![4]) })
    );
    let e = km(ErrorCode::KeyRequiresUpgrade);
    assert_eq!(converted(vec![granted(), due(), upgraded(), due()]), Err(e));
    assert_eq!(converted(vec![granted(), due(), Reply::Bytes(Err(Error::sys()))]), Err(Error::sys()));
}

#[test]
fn conversion_is_refused() {
    let level = level();
    let invalid = km(ErrorCode::InvalidArgument);
    let work = level.convert_storage_key_to_ephemeral(app_key());
    assert!(matches!(work, ConvertStorageKey::Done(Err(e)) if e == invalid));
    let mut no_blob = blob_key();
    no_blob.blob = None;
    let work = level.convert_storage_key_to_ephemeral(no_blob);
    assert!(matches!(work, ConvertStorageKey::Done(Err(e)) if e == invalid));
    assert_eq!(converted(vec![refused(), Reply::Bytes(Ok(vec![7]))]), Err(Error::perm()));
    let e = km(ErrorCode::InvalidKeyBlob);
    assert_eq!(converted(vec![granted(), Reply::Bytes(Err(e))]), Err(e));
}
