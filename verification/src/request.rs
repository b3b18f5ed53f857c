//! What the key store asks of the services around it, and what they answer.
//!
//! A piece of work that needs a device, the database or another service is a value that says
//! what it waits for (a `Request`) and that goes on from what came back (a `Reply`). The driver
//! performs the request and hands back the reply. Each request names the reply that answers
//! it; a reply that does not answer it leaves the work as it is.

use vstd::prelude::*;
use crate::types::{
    AppInfo, AppUid, AttestationKeyInfo, Authorization, BeginResult, BlobMetaData, Caller,
    Certificate, CertificateInfo, Device, Domain, Error, Handle, KeyBlob, KeyCharacteristics,
    KeyCreationResult, KeyDescriptor, KeyFormat, KeyParameter, KeyPerm, KeyPurpose, KsKeyParam,
    LoadedKey, SecurityLevel, AndroidUserId, Uuid,
};

verus! {

/// How much of a key entry is loaded: the key blob alone, or its certificates too.
#[derive(Clone, Copy, Debug, PartialEq, Eq, Structural)]
pub enum LoadBits {
    Km,
    Both,
}

/// One reading of the system clock: the driver's name for it, and its distance from the epoch,
/// unless it lies before that.
#[derive(Clone, Copy, Debug, PartialEq, Eq)]
pub struct ClockReading {
    pub now: Handle,
    pub millis_since_epoch: Option<u128>,
}

/// The key that signs an attestation, as a device takes it. It has no parameters of its own.
#[derive(Clone, Copy, Debug, PartialEq, Eq)]
pub struct AttestationKeyRef<'a> {
    pub key_blob: &'a Vec<u8>,
    pub issuer_subject_name: &'a Vec<u8>,
}

/// What is recorded of an operation when it ends.
#[derive(Clone, Copy, Debug, PartialEq, Eq)]
pub struct LoggingInfo<'a> {
    pub security_level: SecurityLevel,
    pub purpose: KeyPurpose,
    /// The algorithm, by its number in the metrics.
    pub algorithm: i32,
    pub op_params: &'a Vec<KeyParameter>,
    pub key_upgraded: bool,
    pub key_attested: bool,
}

/// The parameters from which the algorithm of an operation is read.
#[derive(Clone, Copy, Debug, PartialEq, Eq)]
pub enum AlgorithmSource<'a> {
    /// Those of the stored key.
    Stored(&'a Vec<KsKeyParam>),
    /// Those of the operation.
    Operation(&'a Vec<KeyParameter>),
}

/// What a device did with a key blob.
#[derive(Clone, Debug, PartialEq, Eq)]
pub enum Outcome {
    Begun(BeginResult),
    Created(KeyCreationResult),
}

/// What the key store asks for.
#[derive(Clone, Copy, Debug, PartialEq, Eq)]
pub enum Request<'a> {
    /// Nothing more: the work is done.
    Nothing,
    /// Whether the number of keys of an app is limited at all. `Reply::Flag`.
    LimitKeysPerUid,
    /// The number of keys in a namespace. `Reply::Count`.
    CountKeyEntries { domain: Domain, nspace: i64 },
    /// What is known of an app. `Reply::App`.
    AppInfo { uid: AppUid },
    /// Whether the caller has a permission on a key. `Reply::Status`.
    CheckKeyPermission { perm: KeyPerm, key: &'a KeyDescriptor, access: Option<i32> },
    /// Whether the caller may attest unique ids. `Reply::Status`.
    CheckUniqueIdAttestationPermission,
    /// Whether the caller may attest device identifiers. `Reply::Status`.
    CheckDeviceAttestationPermission,
    /// The time of day. `Reply::Clock`.
    Clock,
    /// The id of the apps that share a uid, for an attestation. `Reply::Aaid`.
    AttestationApplicationId { uid: u32 },
    /// Whether the device was reset since the unique ids last rotated, as of a clock reading.
    /// `Reply::Decision`.
    HadFactoryResetSinceIdRotation { now: Handle },
    /// Whether the key is to be made without a lookup of an attestation key. `Reply::Flag`.
    PreferLocalAttestKeyFlow { uid: AppUid, params: &'a Vec<KeyParameter>, has_attest_key: bool },
    /// The key that is to sign the attestation. `Reply::AttestKey`.
    AttestKeyInfo {
        key: &'a KeyDescriptor,
        uid: AppUid,
        attest_key: Option<&'a KeyDescriptor>,
        params: &'a Vec<KeyParameter>,
    },
    /// Whether the attestation key is one that is tracked. `Reply::Flag`.
    UsesTrackedAttestKey { uid: AppUid, attest_key: Option<&'a KeyDescriptor> },
    /// Whether an attestation key that is not tracked is treated as if it were. `Reply::Flag`.
    TreatExternalAttestKeyAsCompat {
        uid: AppUid,
        params: &'a Vec<KeyParameter>,
        attest_key: Option<&'a KeyDescriptor>,
    },
    /// Whether the key is to be made in software. `Reply::Flag`.
    ForceSoftwareGeneration {
        uid: AppUid,
        params: &'a Vec<KeyParameter>,
        has_external_attestation_key: bool,
        uses_tracked_attest_key: bool,
    },
    /// A key made in software, if that can be. `Reply::Software`.
    GenerateSoftwareKey {
        uid: AppUid,
        params: &'a Vec<KeyParameter>,
        alias: Option<&'a String>,
    },
    /// The interface version of the device with this identity. `Reply::DeviceVersion`.
    KeyMintByUuid { uuid: Uuid },
    /// A new key from a device. `Reply::Created`.
    GenerateKey {
        device: Device,
        params: &'a Vec<KeyParameter>,
        attest_key: Option<AttestationKeyRef<'a>>,
    },
    /// A key from given material. `Reply::Created`.
    ImportKey { params: &'a Vec<KeyParameter>, format: KeyFormat, key_data: &'a Vec<u8> },
    /// A key from wrapped material. `Reply::Created`.
    ImportWrappedKey {
        wrapped_data: &'a Vec<u8>,
        wrapping_key_blob: &'a Vec<u8>,
        masking_key: &'a Vec<u8>,
        params: &'a Vec<KeyParameter>,
        password_sid: i64,
        fingerprint_sid: i64,
    },
    /// A new operation on a device. `Reply::Begun`.
    Begin {
        purpose: KeyPurpose,
        key_blob: &'a Vec<u8>,
        params: &'a Vec<KeyParameter>,
        auth_token: Option<Handle>,
    },
    /// An ephemeral key for a storage key. `Reply::Bytes`.
    ConvertStorageKeyToEphemeral { key_blob: &'a Vec<u8> },
    /// A key blob in the form that the device takes now, with no further parameters.
    /// `Reply::Bytes`.
    UpgradeKey { key_blob: &'a Vec<u8> },
    /// The removal of a key from a device. `Reply::Status`.
    DeleteKey { key_blob: &'a Vec<u8> },
    /// The run of an operation on a key blob, with an upgrade of the blob where the device asks
    /// for one. A run that is under way goes on. It answers, as often as it needs to, with
    /// `Reply::OperationCalled` for the operation on a blob and `Reply::NewBlob` for an upgraded
    /// blob, and in the end with `Reply::UpgradeDone`. Without parameters the list is empty.
    RunWithUpgrade {
        device: Device,
        version: i32,
        key_blob: &'a Vec<u8>,
        params: Option<&'a Vec<KeyParameter>>,
    },
    /// The outcome of the operation goes back to the run. `Reply::Returned`.
    ReturnOutcome(&'a Result<Outcome, Error>),
    /// What became of an upgraded blob, or of an access check, goes back to whoever called.
    /// `Reply::Returned`.
    ReturnStatus(Result<(), Error>),
    /// A blob under the encryption of the blob that it replaces. `Reply::Reencrypted`.
    ReencryptIfRequired { key_blob: &'a KeyBlob, upgraded_blob: &'a Vec<u8> },
    /// The key blob of a stored key. `Reply::Status`.
    SetKeyBlob { key_id: i64, blob: &'a Vec<u8>, blob_metadata: BlobMetaData },
    /// The name of the component that provisions keys for a security level. `Reply::Name`.
    RemotelyProvisionedComponentName { security_level: SecurityLevel },
    /// An upgraded blob for a key that was provisioned remotely. `Reply::Status`.
    StoreRkpdAttestationKey {
        rpc_name: &'a String,
        key_blob: &'a Vec<u8>,
        upgraded_blob: &'a Vec<u8>,
    },
    /// Whether certificate chains go through the post-processor. `Reply::Decision`.
    UseCertProcessor,
    /// The certificate chain after post-processing. `Reply::Chain`.
    ProcessCertificateChain { chain: &'a Vec<Certificate>, attestation_certs: &'a Vec<u8> },
    /// The new key with the certificate chain that the app is to see. `Reply::Revised`.
    OverrideCertificateChain {
        uid: AppUid,
        params: &'a Vec<KeyParameter>,
        has_external_attestation_key: bool,
        uses_tracked_attest_key: bool,
        alias: Option<&'a String>,
        attest_key: Option<&'a KeyDescriptor>,
        creation_result: &'a KeyCreationResult,
    },
    /// The parameters with the patch levels of the new key. `Reply::Parameters`.
    SyncPatchlevelAuthorizations {
        uid: AppUid,
        creation_result: &'a KeyCreationResult,
        params: &'a Vec<KeyParameter>,
    },
    /// A note of a new key that may sign attestations. `Reply::Returned`.
    MarkGeneratedAttestKey {
        uid: AppUid,
        key: &'a KeyDescriptor,
        params: &'a Vec<KeyParameter>,
        used_software_generation: bool,
    },
    /// The characteristics of a new key as the key store keeps them. `Reply::KsParameters`.
    CharacteristicsToInternal { key_characteristics: &'a Vec<KeyCharacteristics> },
    /// The date of a new key, in milliseconds since the epoch. `Reply::Date`.
    CreationDate,
    /// The blob of a new key, encrypted where that is due. `Reply::Sealed`.
    SuperEncryptOnKeyInit {
        domain: Domain,
        key_parameters: &'a Vec<KsKeyParam>,
        flags: Option<i32>,
        user: AndroidUserId,
        key_blob: &'a Vec<u8>,
    },
    /// A new client key in the database. `Reply::KeyId`.
    StoreNewKey {
        key: &'a KeyDescriptor,
        key_parameters: &'a Vec<KsKeyParam>,
        blob: &'a Vec<u8>,
        blob_metadata: BlobMetaData,
        cert_info: &'a CertificateInfo,
        creation_date: i64,
        km_uuid: Uuid,
    },
    /// The parameters of a new key as a caller sees them. `Reply::Authorizations`.
    ParametersToAuthorizations { key_parameters: &'a Vec<KsKeyParam> },
    /// A client key from the database, which the legacy store may hold under the name
    /// `import_as`. The database answers `Reply::AccessCheck` where it wants to know whether the
    /// caller may have the key, and in the end `Reply::Loaded`.
    LoadKeyEntry {
        import_as: &'a KeyDescriptor,
        key: &'a KeyDescriptor,
        caller: Caller,
        bits: LoadBits,
    },
    /// A stored key blob in the clear. `Reply::Unwrapped`.
    UnwrapKeyIfRequired { blob_metadata: BlobMetaData, blob: &'a Vec<u8> },
    /// Whether an operation may begin, and under which authorization. `Reply::Authorized`.
    AuthorizeCreate {
        purpose: KeyPurpose,
        key_properties: Option<(i64, &'a Vec<KsKeyParam>)>,
        params: &'a Vec<KeyParameter>,
        timestamp_token_required: bool,
    },
    /// Room for one more operation. `Reply::Status`.
    PruneOperations { uid: AppUid, forced: bool },
    /// The descriptor of a stored key. `Reply::Descriptor`.
    LoadKeyDescriptor { key_id: i64 },
    /// An audit record that the blob of a key was found invalid. `Reply::Returned`.
    LogKeyIntegrityViolation { key: &'a KeyDescriptor },
    /// The authorization of an operation that has begun. `Reply::Challenge`.
    FinalizeCreateAuthorization { auth_info: Handle, challenge: i64 },
    /// The algorithm of an operation, by its number in the metrics. `Reply::AlgorithmCode`.
    ParseAlgorithm(AlgorithmSource<'a>),
    /// A place for a new operation among those that run. `Reply::Registered`.
    CreateOperation {
        operation: Handle,
        uid: AppUid,
        auth_info: Handle,
        forced: bool,
        logging_info: LoggingInfo<'a>,
    },
    /// The interface of an operation. `Reply::Interface`.
    OperationBinder { operation: Handle },
}

/// What came back.
#[derive(Debug, PartialEq, Eq)]
pub enum Reply {
    /// The service took note.
    Returned,
    Flag(bool),
    Status(Result<(), Error>),
    Decision(Result<bool, Error>),
    Count(Result<i32, Error>),
    App(AppInfo),
    Clock(ClockReading),
    /// The id, or the status of the service that did not find it.
    Aaid(Result<Vec<u8>, u32>),
    AttestKey(Result<Option<AttestationKeyInfo>, Error>),
    Software(Result<Option<KeyCreationResult>, Error>),
    DeviceVersion(Result<i32, Error>),
    Created(Result<KeyCreationResult, Error>),
    Begun(Result<BeginResult, Error>),
    Bytes(Result<Vec<u8>, Error>),
    /// The operation is to be done on this blob.
    OperationCalled(Vec<u8>),
    /// The blob was upgraded to this one.
    NewBlob(Vec<u8>),
    /// The run is over: the outcome of the operation, and the upgraded blob, if there is one.
    UpgradeDone(Result<(Outcome, Option<Vec<u8>>), Error>),
    Reencrypted(Result<(Vec<u8>, Option<BlobMetaData>), Error>),
    Name(Result<String, Error>),
    Chain(Vec<Certificate>),
    Revised(KeyCreationResult),
    Parameters(Vec<KeyParameter>),
    KsParameters(Vec<KsKeyParam>),
    Date(Result<i64, Error>),
    Sealed(Result<(Vec<u8>, BlobMetaData), Error>),
    KeyId(Result<i64, Error>),
    Authorizations(Vec<Authorization>),
    /// The database wants to know whether the caller may have this key.
    AccessCheck { key: KeyDescriptor, access: Option<i32> },
    Loaded(Result<LoadedKey, Error>),
    Unwrapped(Result<KeyBlob, Error>),
    /// The token for the device, if one is at hand, and the authorization.
    Authorized(Result<(Option<Handle>, Handle), Error>),
    Descriptor(Result<Option<KeyDescriptor>, Error>),
    Challenge(Option<i64>),
    AlgorithmCode(i32),
    Registered(Handle),
    Interface(Result<Handle, Error>),
}

} // verus!
