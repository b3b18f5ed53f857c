//! Lists of parameters, certificates, limits on keys, and the completion of parameters.

use keystore2::admission::Admission;
use keystore2::certs::unify_certificate_chain;
use keystore2::counts::{
    judge_key_count, KeyCounts, API_37_PER_UID_KEY_LIMIT, DEFAULT_PER_UID_KEY_LIMIT,
};
use keystore2::level::{
    new_key_descriptor, KeyMintHardwareInfo, KeystoreSecurityLevel, NativeBinder, PlatformRules,
};
use keystore2::params::{
    add_asymmetric_defaults, add_parameter, contains_algorithm, contains_tag, contains_tag_among,
    copy_parameter, default_cert_subject_der, derive_ec_key_size_from_curve, find_value,
    import_format, operation_purpose, secure_id_of, swap_imeis, without_purpose,
};
use keystore2::request::{ClockReading, Reply, Request};
use keystore2::required::AddRequired;
use keystore2::retry::GenerateRetry;
use keystore2::types::{
    Algorithm, AppInfo, AppUid, AuthenticatorSpec, AuthenticatorType, Certificate, Device, Domain,
    EcCurve, Error, ErrorCode, Handle, KeyCreationResult, KeyDescriptor, KeyFormat, KeyParameter,
    KeyParameterValue, KeyPerm, KeyPurpose, ResponseCode, SecurityLevel, Tag, Uuid,
};

const NOT_AFTER: i64 = 253402300799000;
const AAID_FAILED: u32 = 66;
const SERIAL: Tag = Tag::Other(712);

fn rules() -> PlatformRules {
    PlatformRules {
        undefined_not_after: NOT_AFTER,
        aaid_failed_status: AAID_FAILED,
        device_id_tags: vec![SERIAL, Tag::AttestationIdImei, Tag::AttestationIdSecondImei],
        imei_tags: vec![Tag::AttestationIdImei, Tag::AttestationIdSecondImei],
    }
}

fn level(version_number: i32) -> KeystoreSecurityLevel {
    KeystoreSecurityLevel {
        security_level: SecurityLevel::TrustedEnvironment,
        hw_info: KeyMintHardwareInfo { version_number, timestamp_token_required: false },
        km_uuid: Uuid(7),
        rules: rules(),
    }
}

fn param(tag: Tag, value: KeyParameterValue) -> KeyParameter {
    KeyParameter { tag, value }
}

fn algorithm(a: Algorithm) -> KeyParameter {
    param(Tag::Algorithm, KeyParameterValue::Algorithm(a))
}

fn curve(c: EcCurve) -> KeyParameter {
    param(Tag::EcCurve, KeyParameterValue::EcCurve(c))
}

fn blob(tag: Tag, bytes: &[u8]) -> KeyParameter {
    param(tag, KeyParameterValue::Blob(bytes.to_vec()))
}

fn purpose(p: i32) -> KeyParameter {
    param(Tag::Purpose, KeyParameterValue::KeyPurpose(KeyPurpose(p)))
}

fn app_key(nspace: i64) -> KeyDescriptor {
    KeyDescriptor { domain: Domain::App, nspace, alias: Some("key".to_string()), blob: None }
}

fn created(chain: &[&[u8]]) -> KeyCreationResult {
    KeyCreationResult {
        key_blob: vec![1, 2, 3],
        key_characteristics: vec![],
        certificate_chain: chain
            .iter()
            .map(|c| Certificate { encoded_certificate: c.to_vec() })
            .collect(),
    }
}

fn now(millis: Option<u128>) -> Reply {
    Reply::Clock(ClockReading { now: Handle(9), millis_since_epoch: millis })
}

fn granted() -> Reply {
    Reply::Status(Ok(()))
}

fn refused() -> Reply {
    Reply::Status(Err(Error::perm()))
}

fn complete(
    level: &KeystoreSecurityLevel,
    params: Vec<KeyParameter>,
    replies: Vec<Reply>,
) -> AddRequired {
    let mut work = level.add_required_parameters(AppUid(10_123), params);
    for reply in replies {
        work = work.resume(level, reply);
    }
    work
}

fn completed(
    level: &KeystoreSecurityLevel,
    params: Vec<KeyParameter>,
    replies: Vec<Reply>,
) -> Result<Vec<KeyParameter>, Error> {
    match complete(level, params, replies) {
        AddRequired::Done(r) => r,
        other => panic!("still waits for {:?}", other.pending(&app_key(1))),
    }
}

#[test]
fn errors_have_their_codes() {
    assert_eq!(Error::sys(), Error::Rc(ResponseCode::SystemError));
    assert_eq!(Error::perm(), Error::Rc(ResponseCode::PermissionDenied));
}

#[test]
fn new_level_asks_for_the_callers_context() {
    let hw_info = KeyMintHardwareInfo { version_number: 400, timestamp_token_required: true };
    let r = KeystoreSecurityLevel::new_native_binder(
        SecurityLevel::StrongBox,
        rules(),
        Ok((hw_info, Uuid(11))),
    );
    let expected = NativeBinder {
        level: KeystoreSecurityLevel {
            security_level: SecurityLevel::StrongBox,
            hw_info,
            km_uuid: Uuid(11),
            rules: rules(),
        },
        set_requesting_sid: true,
    };
    assert_eq!(r, Ok((expected, Uuid(11))));
}

#[test]
fn level_without_a_device_is_an_error() {
    let e = Error::Km(ErrorCode::Other(-68));
    let r = KeystoreSecurityLevel::new_native_binder(SecurityLevel::StrongBox, rules(), Err(e));
    assert_eq!(r, Err(e));
}

#[test]
fn app_keys_are_bound_to_the_caller() {
    let mut key = app_key(1);
    key.blob = Some(vec![5]);
    assert_eq!(new_key_descriptor(key, AppUid(10_123)), Ok(app_key(10_123)));
    let selinux = KeyDescriptor {
        domain: Domain::SeLinux,
        nspace: 102,
        alias: Some("wifi".to_string()),
        blob: Some(vec![5]),
    };
    assert_eq!(new_key_descriptor(selinux.clone(), AppUid(10_123)), Ok(selinux));
}

#[test]
fn new_keys_need_an_alias_unless_they_are_blobs() {
    let invalid = Err(Error::Km(ErrorCode::InvalidArgument));
    for domain in [Domain::App, Domain::SeLinux, Domain::KeyId, Domain::Other(9)] {
        let key = KeyDescriptor { domain, nspace: 0, alias: None, blob: None };
        assert_eq!(new_key_descriptor(key, AppUid(3)), invalid);
    }
    let key = KeyDescriptor { domain: Domain::Blob, nspace: 4, alias: None, blob: None };
    assert_eq!(new_key_descriptor(key.clone(), AppUid(3)), Ok(key));
}

#[test]
fn tags_and_values_are_found() {
    let params = vec![
        algorithm(Algorithm::Ec),
        algorithm(Algorithm::Rsa),
        param(Tag::KeySize, KeyParameterValue::Integer(256)),
    ];
    assert!(contains_tag(&params, Tag::KeySize));
    assert!(!contains_tag(&params, Tag::EcCurve));
    assert!(contains_tag_among(&params, &[Tag::EcCurve, Tag::KeySize]));
    assert!(!contains_tag_among(&params, &[Tag::EcCurve]));
    assert!(!contains_tag_among(&params, &[]));
    assert_eq!(
        find_value(&params, Tag::Algorithm),
        Some(&KeyParameterValue::Algorithm(Algorithm::Ec))
    );
    assert_eq!(find_value(&params, Tag::EcCurve), None);
    assert!(contains_algorithm(&params, Algorithm::Rsa));
    assert!(!contains_algorithm(&params, Algorithm::Aes));
    // A value under another tag does not count.
    let elsewhere = [param(Tag::KeySize, KeyParameterValue::Algorithm(Algorithm::Aes))];
    assert!(!contains_algorithm(&elsewhere, Algorithm::Aes));
}

#[test]
fn key_size_follows_from_the_curve() {
    assert_eq!(derive_ec_key_size_from_curve(&[curve(EcCurve::P224)]), Some(224));
    assert_eq!(derive_ec_key_size_from_curve(&[curve(EcCurve::P256)]), Some(256));
    assert_eq!(derive_ec_key_size_from_curve(&[curve(EcCurve::Curve25519)]), Some(256));
    assert_eq!(derive_ec_key_size_from_curve(&[curve(EcCurve::P384)]), Some(384));
    assert_eq!(derive_ec_key_size_from_curve(&[curve(EcCurve::P521)]), Some(521));
    assert_eq!(derive_ec_key_size_from_curve(&[curve(EcCurve::Other(77))]), None);
    assert_eq!(derive_ec_key_size_from_curve(&[]), None);
    // The first curve counts, and a malformed one is passed over.
    let malformed = param(Tag::EcCurve, KeyParameterValue::Integer(1));
    let params = [malformed, curve(EcCurve::P521), curve(EcCurve::P224)];
    assert_eq!(derive_ec_key_size_from_curve(&params), Some(521));
    let unknown_first = [curve(EcCurve::Other(9)), curve(EcCurve::P224)];
    assert_eq!(derive_ec_key_size_from_curve(&unknown_first), None);
}

#[test]
fn purpose_is_the_first_one() {
    let params = [algorithm(Algorithm::Ec), purpose(2), purpose(3)];
    assert_eq!(operation_purpose(&params), Ok(KeyPurpose(2)));
}

#[test]
fn missing_or_malformed_purpose_is_invalid() {
    let invalid = Err(Error::Km(ErrorCode::InvalidArgument));
    assert_eq!(operation_purpose(&[algorithm(Algorithm::Ec)]), invalid);
    let malformed = [param(Tag::Purpose, KeyParameterValue::Integer(2)), purpose(2)];
    assert_eq!(operation_purpose(&malformed), invalid);
}

#[test]
fn every_purpose_is_taken_out() {
    let params = [purpose(2), algorithm(Algorithm::Ec), purpose(3), blob(Tag::Other(4), &[1])];
    let rest = vec![algorithm(Algorithm::Ec), blob(Tag::Other(4), &[1])];
    assert_eq!(without_purpose(&params), rest);
    assert_eq!(without_purpose(&rest), rest);
}

#[test]
fn copies_are_equal() {
    let params = [
        algorithm(Algorithm::Other(5)),
        curve(EcCurve::P256),
        purpose(1),
        param(Tag::Other(1), KeyParameterValue::BoolValue(true)),
        param(Tag::Other(2), KeyParameterValue::Integer(-1)),
        param(Tag::Other(3), KeyParameterValue::LongInteger(1 << 40)),
        param(Tag::Other(4), KeyParameterValue::DateTime(-5)),
        blob(Tag::Other(5), &[9, 8]),
        param(Tag::Other(6), KeyParameterValue::Other(3, 4)),
    ];
    for p in &params {
        assert_eq!(&copy_parameter(p), p);
    }
}

#[test]
fn imeis_are_exchanged_and_back() {
    let params = vec![
        blob(Tag::AttestationIdImei, &[1]),
        algorithm(Algorithm::Ec),
        blob(Tag::AttestationIdSecondImei, &[2]),
    ];
    let swapped = swap_imeis(&params);
    assert_eq!(
        swapped,
        vec![
            blob(Tag::AttestationIdSecondImei, &[1]),
            algorithm(Algorithm::Ec),
            blob(Tag::AttestationIdImei, &[2]),
        ]
    );
    assert_eq!(swap_imeis(&swapped), params);
}

#[test]
fn default_subject_names_the_keystore() {
    let der = default_cert_subject_der();
    assert_eq!(der.len(), 33);
    assert_eq!(der[..2], [0x30, 0x1f]);
    assert_eq!(&der[13..], "Android Keystore Key".as_bytes());
}

#[test]
fn defaults_for_rsa() {
    let mut added = vec![];
    add_asymmetric_defaults(&[algorithm(Algorithm::Rsa)], NOT_AFTER, &mut added);
    assert_eq!(
        added,
        vec![
            blob(Tag::CertificateSubject, &default_cert_subject_der()),
            param(Tag::CertificateNotBefore, KeyParameterValue::DateTime(0)),
            param(Tag::CertificateNotAfter, KeyParameterValue::DateTime(NOT_AFTER)),
            param(Tag::RsaPublicExponent, KeyParameterValue::LongInteger(65537)),
        ]
    );
}

#[test]
fn defaults_for_ec() {
    let mut added = vec![algorithm(Algorithm::Other(1))];
    let params = [algorithm(Algorithm::Ec), curve(EcCurve::P384)];
    add_asymmetric_defaults(&params, NOT_AFTER, &mut added);
    assert_eq!(
        added,
        vec![
            algorithm(Algorithm::Other(1)),
            blob(Tag::CertificateSubject, &default_cert_subject_der()),
            param(Tag::CertificateNotBefore, KeyParameterValue::DateTime(0)),
            param(Tag::CertificateNotAfter, KeyParameterValue::DateTime(NOT_AFTER)),
            param(Tag::KeySize, KeyParameterValue::Integer(384)),
        ]
    );
    // A curve that is not known gives no size.
    let mut added = vec![];
    let params = [algorithm(Algorithm::Ec), curve(EcCurve::Other(5))];
    add_asymmetric_defaults(&params, NOT_AFTER, &mut added);
    assert_eq!(added.len(), 3);
}

#[test]
fn defaults_leave_what_the_caller_gave() {
    let params = [
        algorithm(Algorithm::Rsa),
        blob(Tag::CertificateSubject, &[1]),
        param(Tag::CertificateNotBefore, KeyParameterValue::DateTime(5)),
        param(Tag::CertificateNotAfter, KeyParameterValue::DateTime(6)),
        param(Tag::RsaPublicExponent, KeyParameterValue::LongInteger(3)),
    ];
    let mut added = vec![];
    add_asymmetric_defaults(&params, NOT_AFTER, &mut added);
    assert_eq!(added, vec![]);
    let mut added = vec![];
    let params =
        [algorithm(Algorithm::MlDsa), param(Tag::CertificateNotAfter, KeyParameterValue::DateTime(6))];
    add_asymmetric_defaults(&params, NOT_AFTER, &mut added);
    assert_eq!(
        added,
        vec![
            blob(Tag::CertificateSubject, &default_cert_subject_der()),
            param(Tag::CertificateNotBefore, KeyParameterValue::DateTime(0)),
        ]
    );
}

#[test]
fn symmetric_keys_get_no_defaults() {
    for a in [Algorithm::Aes, Algorithm::TripleDes, Algorithm::Hmac, Algorithm::Other(6)] {
        let mut added = vec![];
        add_asymmetric_defaults(&[algorithm(a)], NOT_AFTER, &mut added);
        assert_eq!(added, vec![]);
    }
    // The first algorithm decides.
    let mut added = vec![];
    let params = [algorithm(Algorithm::Aes), algorithm(Algorithm::Rsa)];
    add_asymmetric_defaults(&params, NOT_AFTER, &mut added);
    assert_eq!(added, vec![]);
}

#[test]
fn parameters_are_appended() {
    let mut list = vec![algorithm(Algorithm::Ec)];
    add_parameter(&mut list, Tag::KeySize, KeyParameterValue::Integer(1));
    assert_eq!(
        list,
        vec![algorithm(Algorithm::Ec), param(Tag::KeySize, KeyParameterValue::Integer(1))]
    );
}

#[test]
fn import_format_follows_the_algorithm() {
    for a in [Algorithm::Aes, Algorithm::Hmac, Algorithm::TripleDes] {
        assert_eq!(import_format(&[algorithm(a)]), Ok(KeyFormat::Raw));
    }
    for a in [Algorithm::Rsa, Algorithm::Ec, Algorithm::MlDsa] {
        assert_eq!(import_format(&[algorithm(a)]), Ok(KeyFormat::Pkcs8));
    }
}

#[test]
fn import_needs_a_known_algorithm() {
    let invalid = Err(Error::Km(ErrorCode::InvalidArgument));
    assert_eq!(import_format(&[]), invalid);
    assert_eq!(import_format(&[algorithm(Algorithm::Other(99))]), invalid);
    assert_eq!(import_format(&[param(Tag::Algorithm, KeyParameterValue::Integer(32))]), invalid);
}

#[test]
fn additions_do_not_change_the_import_format() {
    let params = vec![algorithm(Algorithm::Aes)];
    let mut longer = params.clone();
    longer.push(algorithm(Algorithm::Ec));
    assert_eq!(import_format(&longer), import_format(&params));
}

#[test]
fn secure_ids_are_those_of_the_first_of_a_kind() {
    let spec = |authenticator_type, authenticator_id| AuthenticatorSpec {
        authenticator_type,
        authenticator_id,
    };
    let specs = [
        spec(AuthenticatorType::Other(4), 1),
        spec(AuthenticatorType::Fingerprint, 2),
        spec(AuthenticatorType::Password, 3),
        spec(AuthenticatorType::Fingerprint, 4),
    ];
    assert_eq!(secure_id_of(&specs, AuthenticatorType::Password), 3);
    assert_eq!(secure_id_of(&specs, AuthenticatorType::Fingerprint), 2);
    assert_eq!(secure_id_of(&specs[..1], AuthenticatorType::Password), -1);
    assert_eq!(secure_id_of(&[], AuthenticatorType::Fingerprint), -1);
}

#[test]
fn certificate_chain_is_split() {
    let info = unify_certificate_chain(created(&[]).certificate_chain);
    assert_eq!((info.cert, info.cert_chain), (None, None));
    let info = unify_certificate_chain(created(&[&[1, 2]]).certificate_chain);
    assert_eq!((info.cert, info.cert_chain), (Some(vec![1, 2]), None));
    let info = unify_certificate_chain(created(&[&[1], &[2, 3], &[], &[4]]).certificate_chain);
    assert_eq!((info.cert, info.cert_chain), (Some(vec![1]), Some(vec![2, 3, 4])));
}

#[test]
fn joined_chain_is_stored_like_single_certificates() {
    let single = unify_certificate_chain(created(&[&[1], &[2, 3], &[4]]).certificate_chain);
    let joined = unify_certificate_chain(created(&[&[1], &[2, 3, 4]]).certificate_chain);
    assert_eq!(single, joined);
}

#[test]
fn provisioned_certificates_end_the_chain() {
    let mut chain = created(&[&[1], &[2]]).certificate_chain;
    chain.push(Certificate { encoded_certificate: vec![8, 9] });
    assert_eq!(unify_certificate_chain(chain).cert_chain, Some(vec![2, 8, 9]));
}

fn app(target_sdk: Option<i32>, is_system_app: bool) -> AppInfo {
    AppInfo { target_sdk, is_system_app }
}

#[test]
fn key_limits() {
    assert_eq!(DEFAULT_PER_UID_KEY_LIMIT, 200_000);
    assert_eq!(API_37_PER_UID_KEY_LIMIT, 50_000);
    let too_many = Err(Error::Rc(ResponseCode::TooManyAppKeys));
    let too_many_37 = Err(Error::Rc(ResponseCode::TooManyAppKeysSdk37));
    // Apps that target SDK level 37 have the lower limit and their own error.
    assert_eq!(judge_key_count(49_999, app(Some(37), false)), Ok(()));
    assert_eq!(judge_key_count(50_000, app(Some(37), false)), too_many_37);
    assert_eq!(judge_key_count(50_000, app(Some(38), false)), too_many_37);
    // Others have the higher one.
    assert_eq!(judge_key_count(199_999, app(Some(36), false)), Ok(()));
    assert_eq!(judge_key_count(200_000, app(Some(36), false)), too_many);
    assert_eq!(judge_key_count(199_999, app(None, false)), Ok(()));
    assert_eq!(judge_key_count(200_000, app(None, false)), too_many);
    // So have system apps, which still get the error that they know.
    assert_eq!(judge_key_count(199_999, app(Some(37), true)), Ok(()));
    assert_eq!(judge_key_count(200_000, app(Some(37), true)), too_many_37);
    assert_eq!(judge_key_count(200_000, app(Some(30), true)), too_many);
}

#[test]
fn keys_are_counted_only_where_they_are_limited() {
    let level = level(400);
    let counts = level.check_key_counts(&app_key(10_123));
    assert_eq!(counts.pending(), Request::LimitKeysPerUid);
    assert_eq!(counts.resume(&Reply::Flag(false)), KeyCounts::Done(Ok(())));
    let counts = counts.resume(&Reply::Flag(true));
    assert_eq!(
        counts.pending(),
        Request::CountKeyEntries { domain: Domain::App, nspace: 10_123 }
    );
    let mut selinux = app_key(102);
    selinux.domain = Domain::SeLinux;
    let counts = level.check_key_counts(&selinux).resume(&Reply::Flag(true));
    assert_eq!(counts, KeyCounts::Done(Ok(())));
}

#[test]
fn app_is_looked_up_only_at_the_lower_limit() {
    let counting = level(400).check_key_counts(&app_key(10_123)).resume(&Reply::Flag(true));
    // Where keys cannot be counted, one more is allowed.
    let failed = counting.resume(&Reply::Count(Err(Error::sys())));
    assert_eq!(failed, KeyCounts::Done(Ok(())));
    assert_eq!(counting.resume(&Reply::Count(Ok(49_999))), KeyCounts::Done(Ok(())));
    let counts = counting.resume(&Reply::Count(Ok(50_000)));
    assert_eq!(counts.pending(), Request::AppInfo { uid: AppUid(10_123) });
    assert_eq!(
        counts.resume(&Reply::App(app(Some(37), false))),
        KeyCounts::Done(Err(Error::Rc(ResponseCode::TooManyAppKeysSdk37)))
    );
    assert_eq!(counts.resume(&Reply::App(app(None, false))), KeyCounts::Done(Ok(())));
    // A reply that is not due changes nothing.
    assert_eq!(counts.resume(&Reply::Flag(true)), counts);
    assert_eq!(KeyCounts::Done(Ok(())).pending(), Request::Nothing);
}

#[test]
fn more_keys_are_no_excuse() {
    let info = app(Some(37), false);
    let refusal = judge_key_count(50_000, info);
    assert!(refusal.is_err());
    assert_eq!(judge_key_count(60_000, info), refusal);
    assert_eq!(judge_key_count(i32::MAX, info), refusal);
}

#[test]
fn admission_counts_and_then_checks_the_permission() {
    let level = level(400);
    let key = app_key(10_123);
    let admission = Admission::start(&level, &key);
    assert_eq!(admission.pending(&key), Request::LimitKeysPerUid);
    let admission = admission.resume(&Reply::Flag(false));
    assert_eq!(admission, Admission::Rebind);
    assert_eq!(
        admission.pending(&key),
        Request::CheckKeyPermission { perm: KeyPerm::Rebind, key: &key, access: None }
    );
    assert_eq!(admission.resume(&granted()), Admission::Done(Ok(())));
    assert_eq!(admission.resume(&refused()), Admission::Done(Err(Error::perm())));
    assert_eq!(admission.resume(&Reply::Count(Ok(1))), admission);
}

#[test]
fn admission_ends_at_the_limit() {
    let level = level(400);
    let admission = Admission::start(&level, &app_key(10_123))
        .resume(&Reply::Flag(true))
        .resume(&Reply::Count(Ok(200_000)))
        .resume(&Reply::App(app(None, true)));
    let refusal = Admission::Done(Err(Error::Rc(ResponseCode::TooManyAppKeys)));
    assert_eq!(admission, refusal);
    assert_eq!(admission.pending(&app_key(10_123)), Request::Nothing);
    assert_eq!(admission.resume(&granted()), refusal);
}

#[test]
fn date_of_creation_is_refused() {
    let params =
        vec![param(Tag::CreationDatetime, KeyParameterValue::DateTime(1)), algorithm(Algorithm::Aes)];
    let r = completed(&level(400), params, vec![]);
    assert_eq!(r, Err(Error::Rc(ResponseCode::InvalidArgument)));
}

#[test]
fn date_is_added_for_devices_that_take_it() {
    let params = vec![algorithm(Algorithm::Aes)];
    let dated = vec![
        algorithm(Algorithm::Aes),
        param(Tag::CreationDatetime, KeyParameterValue::DateTime(1234)),
    ];
    let r = completed(&level(100), params.clone(), vec![now(Some(1234))]);
    assert_eq!(r, Ok(dated));
    let r = completed(&level(99), params.clone(), vec![now(Some(1234))]);
    assert_eq!(r, Ok(params));
}

#[test]
fn clock_must_be_sane_for_a_date() {
    let params = vec![algorithm(Algorithm::Aes)];
    let r = completed(&level(100), params.clone(), vec![now(None)]);
    assert_eq!(r, Err(Error::ClockBeforeEpoch));
    let too_far = i64::MAX as u128 + 1;
    let r = completed(&level(100), params.clone(), vec![now(Some(too_far))]);
    assert_eq!(r, Err(Error::ClockOutOfRange));
    let r = completed(&level(100), params.clone(), vec![now(Some(too_far - 1))]);
    assert_eq!(r.map(|p| p.len()), Ok(2));
    // A device that takes no date does not mind the clock.
    let r = completed(&level(41), params.clone(), vec![now(None)]);
    assert_eq!(r, Ok(params));
}

#[test]
fn challenge_needs_an_application_id() {
    let level = level(41);
    let params = vec![algorithm(Algorithm::Aes), blob(Tag::AttestationChallenge, &[7])];
    let work = complete(&level, params.clone(), vec![now(Some(1))]);
    assert_eq!(work.pending(&app_key(1)), Request::AttestationApplicationId { uid: 10_123 });
    let r = completed(&level, params.clone(), vec![now(Some(1)), Reply::Aaid(Ok(vec![4, 2]))]);
    let mut with_id = params.clone();
    with_id.push(blob(Tag::AttestationApplicationId, &[4, 2]));
    assert_eq!(r, Ok(with_id));
    let r = completed(&level, params.clone(), vec![now(Some(1)), Reply::Aaid(Err(AAID_FAILED))]);
    assert_eq!(r, Err(Error::Rc(ResponseCode::GetAttestationApplicationIdFailed)));
    let r = completed(&level, params, vec![now(Some(1)), Reply::Aaid(Err(3))]);
    assert_eq!(r, Err(Error::AaidStatus(3)));
}

#[test]
fn application_id_is_asked_for_the_low_half_of_the_uid() {
    let level = level(41);
    let work = level
        .add_required_parameters(AppUid(-1), vec![blob(Tag::AttestationChallenge, &[])])
        .resume(&level, now(Some(1)));
    assert_eq!(work.pending(&app_key(1)), Request::AttestationApplicationId { uid: u32::MAX });
}

#[test]
fn unique_id_needs_one_of_two_permissions() {
    let level = level(41);
    let key = app_key(10_123);
    let unique = param(Tag::IncludeUniqueId, KeyParameterValue::BoolValue(true));
    let params = vec![algorithm(Algorithm::Aes), unique];
    let work = complete(&level, params.clone(), vec![now(Some(1))]);
    assert_eq!(
        work.pending(&key),
        Request::CheckKeyPermission { perm: KeyPerm::GenUniqueId, key: &key, access: None }
    );
    let work = work.resume(&level, refused());
    assert_eq!(work.pending(&key), Request::CheckUniqueIdAttestationPermission);
    let work = work.resume(&level, granted());
    assert_eq!(work.pending(&key), Request::HadFactoryResetSinceIdRotation { now: Handle(9) });
    let r = completed(
        &level,
        params.clone(),
        vec![now(Some(1)), granted(), Reply::Decision(Ok(false))],
    );
    assert_eq!(r, Ok(params.clone()));
    let r = completed(&level, params, vec![now(Some(1)), refused(), refused()]);
    assert_eq!(r, Err(Error::Rc(ResponseCode::PermissionDenied)));
}

#[test]
fn reset_is_noted_with_a_unique_id() {
    let level = level(41);
    let unique = param(Tag::IncludeUniqueId, KeyParameterValue::BoolValue(true));
    let params = vec![unique];
    let r = completed(
        &level,
        params.clone(),
        vec![now(Some(1)), granted(), Reply::Decision(Ok(true))],
    );
    let mut noted = params.clone();
    noted.push(param(Tag::ResetSinceIdRotation, KeyParameterValue::BoolValue(true)));
    assert_eq!(r, Ok(noted));
    let e = Error::Foreign(Handle(5));
    let r = completed(&level, params, vec![now(Some(1)), granted(), Reply::Decision(Err(e))]);
    assert_eq!(r, Err(e));
}

#[test]
fn device_ids_need_a_permission() {
    let level = level(41);
    let params = vec![blob(SERIAL, &[1])];
    let work = complete(&level, params.clone(), vec![now(Some(1))]);
    assert_eq!(work.pending(&app_key(1)), Request::CheckDeviceAttestationPermission);
    let r = completed(&level, params.clone(), vec![now(Some(1)), granted()]);
    assert_eq!(r, Ok(params.clone()));
    let e = Error::Km(ErrorCode::CannotAttestIds);
    let r = completed(&level, params, vec![now(Some(1)), Reply::Status(Err(e))]);
    assert_eq!(r, Err(e));
}

#[test]
fn whole_list_has_everything_in_its_order() {
    let level = level(400);
    let params = vec![
        algorithm(Algorithm::Ec),
        curve(EcCurve::P256),
        blob(Tag::AttestationChallenge, &[7]),
        param(Tag::IncludeUniqueId, KeyParameterValue::BoolValue(true)),
        blob(SERIAL, &[1]),
    ];
    let r = completed(
        &level,
        params.clone(),
        vec![
            now(Some(99)),
            Reply::Aaid(Ok(vec![4])),
            granted(),
            Reply::Decision(Ok(true)),
            granted(),
        ],
    );
    let mut whole = params;
    whole.push(param(Tag::CreationDatetime, KeyParameterValue::DateTime(99)));
    whole.push(blob(Tag::AttestationApplicationId, &[4]));
    whole.push(param(Tag::ResetSinceIdRotation, KeyParameterValue::BoolValue(true)));
    whole.push(blob(Tag::CertificateSubject, &default_cert_subject_der()));
    whole.push(param(Tag::CertificateNotBefore, KeyParameterValue::DateTime(0)));
    whole.push(param(Tag::CertificateNotAfter, KeyParameterValue::DateTime(NOT_AFTER)));
    whole.push(param(Tag::KeySize, KeyParameterValue::Integer(256)));
    assert_eq!(r, Ok(whole));
}

#[test]
fn completed_list_is_refused_when_it_is_given_again() {
    let level = level(100);
    let once = completed(&level, vec![algorithm(Algorithm::Aes)], vec![now(Some(5))]).unwrap();
    let r = completed(&level, once, vec![]);
    assert_eq!(r, Err(Error::Rc(ResponseCode::InvalidArgument)));
}

#[test]
fn older_devices_complete_a_list_once() {
    let level = level(99);
    for params in [
        vec![algorithm(Algorithm::Rsa)],
        vec![algorithm(Algorithm::Ec), curve(EcCurve::P521)],
        vec![algorithm(Algorithm::MlDsa)],
        vec![algorithm(Algorithm::Aes)],
    ] {
        let once = completed(&level, params, vec![now(Some(5))]).unwrap();
        let twice = completed(&level, once.clone(), vec![now(Some(6))]);
        assert_eq!(twice, Ok(once));
    }
    // The permission for device identifiers is asked for again.
    let params = vec![algorithm(Algorithm::Rsa), blob(SERIAL, &[1])];
    let once = completed(&level, params, vec![now(Some(5)), granted()]).unwrap();
    let work = complete(&level, once.clone(), vec![now(Some(6))]);
    assert_eq!(work.pending(&app_key(1)), Request::CheckDeviceAttestationPermission);
    let twice = completed(&level, once.clone(), vec![now(Some(6)), granted()]);
    assert_eq!(twice, Ok(once.clone()));
    // Only its refusal ends the completion.
    let e = Error::Km(ErrorCode::CannotAttestIds);
    let twice = completed(&level, once, vec![now(Some(6)), Reply::Status(Err(e))]);
    assert_eq!(twice, Err(e));
}

#[test]
fn reset_is_judged_as_of_the_reading_that_dates_the_key() {
    let level = level(400);
    let unique = param(Tag::IncludeUniqueId, KeyParameterValue::BoolValue(true));
    let reading = ClockReading { now: Handle(31), millis_since_epoch: Some(77) };
    let work = complete(&level, vec![unique], vec![Reply::Clock(reading), now(Some(78)), granted()]);
    assert_eq!(
        work.pending(&app_key(1)),
        Request::HadFactoryResetSinceIdRotation { now: Handle(31) }
    );
    match work.resume(&level, Reply::Decision(Ok(false))) {
        AddRequired::Done(Ok(whole)) => assert_eq!(
            find_value(&whole, Tag::CreationDatetime),
            Some(&KeyParameterValue::DateTime(77))
        ),
        _ => panic!("not done"),
    }
}

#[test]
fn clock_is_read_once() {
    let level = level(400);
    let challenge = vec![blob(Tag::AttestationChallenge, &[7])];
    let work = level.add_required_parameters(AppUid(1), challenge);
    assert_eq!(work.pending(&app_key(1)), Request::Clock);
    let work = work.resume(&level, now(Some(5))).resume(&level, now(Some(6)));
    assert_eq!(work.pending(&app_key(1)), Request::AttestationApplicationId { uid: 1 });
    let r = match work.resume(&level, Reply::Aaid(Ok(vec![]))) {
        AddRequired::Done(r) => r,
        _ => panic!("not done"),
    };
    assert_eq!(
        find_value(&r.unwrap(), Tag::CreationDatetime),
        Some(&KeyParameterValue::DateTime(5))
    );
}

fn imei_params() -> Vec<KeyParameter> {
    vec![blob(Tag::AttestationIdImei, &[1]), blob(Tag::AttestationIdSecondImei, &[2])]
}

fn failed(code: ErrorCode) -> Reply {
    Reply::Created(Err(Error::Km(code)))
}

#[test]
fn mismatch_is_tried_again_with_the_imeis_exchanged() {
    let level = level(300);
    let params = imei_params();
    for code in [
        ErrorCode::CannotAttestIds,
        ErrorCode::InvalidTag,
        ErrorCode::AttestationIdsNotProvisioned,
    ] {
        let work = level.generate_key_and_retry_on_att_id_mismatch();
        assert_eq!(
            work.pending(&params, None),
            Request::GenerateKey { device: Device::Own, params: &params, attest_key: None }
        );
        let work = work.resume(&level, &params, failed(code));
        let swapped = swap_imeis(&params);
        assert_eq!(
            work.pending(&params, None),
            Request::GenerateKey { device: Device::Own, params: &swapped, attest_key: None }
        );
        // The second answer is the last.
        let e = Error::Km(ErrorCode::CannotAttestIds);
        let work = work.resume(&level, &params, Reply::Created(Err(e)));
        assert!(matches!(work, GenerateRetry::Done(Err(last)) if last == e));
    }
}

#[test]
fn there_is_no_second_attempt_where_it_cannot_help() {
    let params = imei_params();
    let e = Error::Km(ErrorCode::CannotAttestIds);
    for version in [299, 500] {
        let work = GenerateRetry::First.resume(
            &level(version),
            &params,
            failed(ErrorCode::CannotAttestIds),
        );
        assert!(matches!(work, GenerateRetry::Done(Err(last)) if last == e));
    }
    let work =
        GenerateRetry::First.resume(&level(499), &params, failed(ErrorCode::CannotAttestIds));
    assert!(matches!(work, GenerateRetry::Second(_)));
    // No IMEI was asked for.
    let others = vec![blob(SERIAL, &[1])];
    let work =
        GenerateRetry::First.resume(&level(300), &others, failed(ErrorCode::CannotAttestIds));
    assert!(matches!(work, GenerateRetry::Done(Err(last)) if last == e));
    // Another error.
    let work = GenerateRetry::First.resume(&level(300), &params, failed(ErrorCode::InvalidArgument));
    assert!(matches!(
        work,
        GenerateRetry::Done(Err(Error::Km(ErrorCode::InvalidArgument)))
    ));
}

#[test]
fn success_is_final() {
    let level = level(300);
    let params = imei_params();
    let work = GenerateRetry::First.resume(&level, &params, Reply::Created(Ok(created(&[&[1]]))));
    assert_eq!(work.pending(&params, None), Request::Nothing);
    let work = work.resume(&level, &params, failed(ErrorCode::CannotAttestIds));
    assert!(matches!(work, GenerateRetry::Done(Ok(made)) if made == created(&[&[1]])));
}
