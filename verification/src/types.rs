//! The vocabulary of the key store: tags, parameters, key descriptors, errors and the other
//! plain values that pass between the key store, its callers and the services around it.
//!
//! Enumerations keep the values that some rule tells apart; every further value of the wire
//! format is an `Other` with its number.

use vstd::prelude::*;

verus! {

/// The environment in which a key, or one of its parameters, is enforced.
#[derive(Clone, Copy, Debug, PartialEq, Eq, Structural)]
pub enum SecurityLevel {
    Software,
    TrustedEnvironment,
    StrongBox,
    /// Any other, by its number: never that of one above.
    Other(i32),
}

/// What a key parameter is about.
#[derive(Clone, Copy, Debug, PartialEq, Eq, Structural)]
pub enum Tag {
    Purpose,
    Algorithm,
    KeySize,
    EcCurve,
    RsaPublicExponent,
    IncludeUniqueId,
    CreationDatetime,
    AttestationChallenge,
    AttestationApplicationId,
    AttestationIdImei,
    AttestationIdSecondImei,
    ResetSinceIdRotation,
    CertificateSubject,
    CertificateNotBefore,
    CertificateNotAfter,
    /// Any other, by its number: never that of one above.
    Other(i32),
}

/// The algorithm that a key is for.
#[derive(Clone, Copy, Debug, PartialEq, Eq, Structural)]
pub enum Algorithm {
    Rsa,
    Ec,
    MlDsa,
    Aes,
    TripleDes,
    Hmac,
    /// Any other, by its number: never that of one above.
    Other(i32),
}

/// An elliptic curve.
#[derive(Clone, Copy, Debug, PartialEq, Eq, Structural)]
pub enum EcCurve {
    P224,
    P256,
    P384,
    P521,
    Curve25519,
    /// Any other, by its number: never that of one above.
    Other(i32),
}

/// What an operation does with a key, by its number.
#[derive(Clone, Copy, Debug, PartialEq, Eq, Structural)]
pub struct KeyPurpose(pub i32);

/// The encoding of imported key material.
#[derive(Clone, Copy, Debug, PartialEq, Eq, Structural)]
pub enum KeyFormat {
    Pkcs8,
    Raw,
}

/// How the key material of a key came to be.
#[derive(Clone, Copy, Debug, PartialEq, Eq, Structural)]
pub enum KeyOrigin {
    Generated,
    Imported,
    SecurelyImported,
}

/// The kind of a user authenticator.
#[derive(Clone, Copy, Debug, PartialEq, Eq, Structural)]
pub enum AuthenticatorType {
    Password,
    Fingerprint,
    /// Any other, by its number: never that of one above.
    Other(i32),
}

/// An authenticator and the secure id under which it knows the user.
#[derive(Clone, Copy, Debug, PartialEq, Eq, Structural)]
pub struct AuthenticatorSpec {
    pub authenticator_type: AuthenticatorType,
    pub authenticator_id: i64,
}

/// How a key descriptor names its key.
#[derive(Clone, Copy, Debug, PartialEq, Eq, Structural)]
pub enum Domain {
    App,
    SeLinux,
    Blob,
    KeyId,
    /// Any other, by its number: never that of one above.
    Other(i32),
}

/// A permission on a key.
#[derive(Clone, Copy, Debug, PartialEq, Eq, Structural)]
pub enum KeyPerm {
    Use,
    ReqForcedOp,
    Rebind,
    GenUniqueId,
    Delete,
    ConvertStorageKeyToEphemeral,
}

/// The error codes of a KeyMint device.
#[derive(Clone, Copy, Debug, PartialEq, Eq, Structural)]
pub enum ErrorCode {
    InvalidArgument,
    InvalidTag,
    InvalidKeyBlob,
    TooManyOperations,
    KeyRequiresUpgrade,
    CannotAttestIds,
    AttestationIdsNotProvisioned,
    /// Any other, by its number: never that of one above.
    Other(i32),
}

/// The response codes of the key store itself.
#[derive(Clone, Copy, Debug, PartialEq, Eq, Structural)]
pub enum ResponseCode {
    InvalidArgument,
    PermissionDenied,
    SystemError,
    GetAttestationApplicationIdFailed,
    TooManyAppKeys,
    TooManyAppKeysSdk37,
    /// Any other, by its number: never that of one above.
    Other(i32),
}

/// Why a request failed.
#[derive(Clone, Copy, Debug, PartialEq, Eq, Structural)]
pub enum Error {
    /// A KeyMint error code.
    Km(ErrorCode),
    /// A key store response code.
    Rc(ResponseCode),
    /// The system clock stands before the epoch.
    ClockBeforeEpoch,
    /// The system clock does not fit in 64 bits of milliseconds.
    ClockOutOfRange,
    /// The attestation application id service answered with an unforeseen status.
    AaidStatus(u32),
    /// An error of another service, by the name under which the driver keeps it.
    Foreign(Handle),
}

impl Error {
    /// The error for what should not have happened.
    pub fn sys() -> (e: Error)
        ensures
            e == Error::Rc(ResponseCode::SystemError),
    {
        Error::Rc(ResponseCode::SystemError)
    }

    /// The error for a permission that the caller does not have.
    pub fn perm() -> (e: Error)
        ensures
            e == Error::Rc(ResponseCode::PermissionDenied),
    {
        Error::Rc(ResponseCode::PermissionDenied)
    }
}

/// The name of a value that the driver keeps: an authorization token, a running operation,
/// a foreign error, a clock reading.
#[derive(Clone, Copy, Debug, PartialEq, Eq, Structural)]
pub struct Handle(pub u64);

/// The identity of a KeyMint device.
#[derive(Clone, Copy, Debug, PartialEq, Eq, Structural)]
pub struct Uuid(pub u128);

/// The uid of an app.
#[derive(Clone, Copy, Debug, PartialEq, Eq, Structural)]
pub struct AppUid(pub i64);

/// A user of the device.
#[derive(Clone, Copy, Debug, PartialEq, Eq, Structural)]
pub struct AndroidUserId(pub i32);

/// Who is calling: the uid, and the user who owns it.
#[derive(Clone, Copy, Debug, PartialEq, Eq, Structural)]
pub struct Caller {
    pub uid: AppUid,
    pub user: AndroidUserId,
}

/// What the package manager knows of an app.
#[derive(Clone, Copy, Debug, PartialEq, Eq)]
pub struct AppInfo {
    pub target_sdk: Option<i32>,
    pub is_system_app: bool,
}

/// The value of a key parameter.
#[derive(Clone, Debug, PartialEq, Eq)]
pub enum KeyParameterValue {
    Algorithm(Algorithm),
    EcCurve(EcCurve),
    KeyPurpose(KeyPurpose),
    BoolValue(bool),
    Integer(i32),
    LongInteger(i64),
    DateTime(i64),
    Blob(Vec<u8>),
    /// A value of a kind that no rule reads: the kind, and the value.
    Other(i32, i32),
}

/// A key parameter.
#[derive(Clone, Debug, PartialEq, Eq)]
pub struct KeyParameter {
    pub tag: Tag,
    pub value: KeyParameterValue,
}

/// The model of a parameter value: the same, with a blob as the sequence of its bytes.
pub enum ParamValue {
    Algorithm(Algorithm),
    EcCurve(EcCurve),
    KeyPurpose(KeyPurpose),
    BoolValue(bool),
    Integer(i32),
    LongInteger(i64),
    DateTime(i64),
    Blob(Seq<u8>),
    Other(i32, i32),
}

/// The model of a key parameter.
pub struct Param {
    pub tag: Tag,
    pub value: ParamValue,
}

impl View for KeyParameterValue {
    type V = ParamValue;

    open spec fn view(&self) -> ParamValue {
        match *self {
            KeyParameterValue::Algorithm(a) => ParamValue::Algorithm(a),
            KeyParameterValue::EcCurve(c) => ParamValue::EcCurve(c),
            KeyParameterValue::KeyPurpose(p) => ParamValue::KeyPurpose(p),
            KeyParameterValue::BoolValue(b) => ParamValue::BoolValue(b),
            KeyParameterValue::Integer(i) => ParamValue::Integer(i),
            KeyParameterValue::LongInteger(i) => ParamValue::LongInteger(i),
            KeyParameterValue::DateTime(t) => ParamValue::DateTime(t),
            KeyParameterValue::Blob(b) => ParamValue::Blob(b@),
            KeyParameterValue::Other(k, v) => ParamValue::Other(k, v),
        }
    }
}

impl View for KeyParameter {
    type V = Param;

    open spec fn view(&self) -> Param {
        Param { tag: self.tag, value: self.value@ }
    }
}

/// The model of a list of parameters.
pub open spec fn model(params: Seq<KeyParameter>) -> Seq<Param> {
    params.map_values(|p: KeyParameter| p@)
}

/// The name of a key.
#[derive(Clone, Debug, PartialEq, Eq)]
pub struct KeyDescriptor {
    pub domain: Domain,
    pub nspace: i64,
    pub alias: Option<String>,
    pub blob: Option<Vec<u8>>,
}

/// One encoded certificate, or the certificates of a chain one after the other.
#[derive(Clone, Debug, PartialEq, Eq)]
pub struct Certificate {
    pub encoded_certificate: Vec<u8>,
}

/// Parameters that a device enforces at one security level.
#[derive(Clone, Debug, PartialEq, Eq)]
pub struct KeyCharacteristics {
    pub security_level: SecurityLevel,
    pub authorizations: Vec<KeyParameter>,
}

/// What a device returns for a new key.
#[derive(Clone, Debug, PartialEq, Eq)]
pub struct KeyCreationResult {
    pub key_blob: Vec<u8>,
    pub key_characteristics: Vec<KeyCharacteristics>,
    pub certificate_chain: Vec<Certificate>,
}

/// A parameter as the key store keeps it.
#[derive(Clone, Debug, PartialEq, Eq)]
pub enum KsKeyParamValue {
    UserId(AndroidUserId),
    Km(KeyParameter),
}

/// A parameter as the key store keeps it, with the level that enforces it.
#[derive(Clone, Debug, PartialEq, Eq)]
pub struct KsKeyParam {
    pub value: KsKeyParamValue,
    pub security_level: SecurityLevel,
}

/// A parameter as the key store reports it to a caller.
#[derive(Clone, Debug, PartialEq, Eq)]
pub struct Authorization {
    pub security_level: SecurityLevel,
    pub key_parameter: KeyParameter,
}

/// What is stored beside a key blob: the device that made it, and the driver's name for the
/// remaining entries, if there are any.
#[derive(Clone, Copy, Debug, PartialEq, Eq)]
pub struct BlobMetaData {
    pub km_uuid: Option<Uuid>,
    pub others: Option<Handle>,
}

/// A key blob as a device takes it.
#[derive(Clone, Debug, PartialEq, Eq)]
pub struct KeyBlob {
    pub bytes: Vec<u8>,
    /// Whether the blob is stored under encryption that is due for renewal.
    pub force_reencrypt: bool,
    /// The driver's name for the key under which the blob is stored, if it is encrypted.
    pub sealed_with: Option<Handle>,
}

/// The certificates of a stored key: the leaf, and the rest of the chain in one piece.
#[derive(Clone, Debug, PartialEq, Eq)]
pub struct CertificateInfo {
    pub cert: Option<Vec<u8>>,
    pub cert_chain: Option<Vec<u8>>,
}

/// What a caller learns of a key.
#[derive(Clone, Debug, PartialEq, Eq)]
pub struct KeyMetadata {
    pub key: KeyDescriptor,
    pub key_security_level: SecurityLevel,
    pub certificate: Option<Vec<u8>>,
    pub certificate_chain: Option<Vec<u8>>,
    pub authorizations: Vec<Authorization>,
    pub modification_time_ms: i64,
}

/// A key entry that was loaded from the database.
#[derive(Clone, Debug, PartialEq, Eq)]
pub struct LoadedKey {
    pub key_id: i64,
    pub attested: bool,
    pub blob_info: Option<(Vec<u8>, BlobMetaData)>,
    pub key_parameters: Vec<KsKeyParam>,
}

/// The key that is to sign an attestation.
#[derive(Clone, Debug, PartialEq, Eq)]
pub enum AttestationKeyInfo {
    /// A key of the caller's own, from the database.
    UserGenerated {
        key_id: i64,
        blob: Vec<u8>,
        blob_metadata: BlobMetaData,
        issuer_subject: Vec<u8>,
    },
    /// A key that was provisioned remotely, with the chain of its certificates in one piece.
    RkpdProvisioned { key_blob: Vec<u8>, issuer_subject: Vec<u8>, attestation_certs: Vec<u8> },
}

/// What a device returns for a new operation.
#[derive(Clone, Debug, PartialEq, Eq)]
pub struct BeginResult {
    pub challenge: i64,
    pub params: Vec<KeyParameter>,
    pub operation: Option<Handle>,
}

/// What a caller gets for a new operation.
#[derive(Clone, Debug, PartialEq, Eq)]
pub struct CreateOperationResponse {
    pub operation: Handle,
    pub operation_challenge: Option<i64>,
    pub parameters: Option<Vec<KeyParameter>>,
    pub upgraded_blob: Option<Vec<u8>>,
}

/// What a caller gets for a storage key.
#[derive(Clone, Debug, PartialEq, Eq)]
pub struct EphemeralStorageKeyResponse {
    pub ephemeral_key: Vec<u8>,
    pub upgraded_blob: Option<Vec<u8>>,
}

/// A KeyMint device: that of the security level at hand, or another one by its identity.
#[derive(Clone, Copy, Debug, PartialEq, Eq, Structural)]
pub enum Device {
    Own,
    ByUuid(Uuid),
}

} // verus!
