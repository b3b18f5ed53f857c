//! The creation of an operation with a key.

use vstd::prelude::*;
use crate::level::KeystoreSecurityLevel;
use crate::load::{hands_out, is_grant, is_refusal, tells_grant, tells_refusal, Load};
use crate::params::{
    has_tag, law_purpose_is_gone, operation_purpose, purpose_of, without_purpose, without_tag,
};
use crate::request::{AlgorithmSource, LoadBits, LoggingInfo, Outcome, Reply, Request};
use crate::types::{
    model, BeginResult, BlobMetaData, Caller, CreateOperationResponse, Domain, Error, Handle,
    KeyBlob, KeyDescriptor, KeyParameter, KeyPerm, KeyPurpose, KsKeyParam, LoadedKey, ResponseCode,
    Tag,
};
use crate::upgrade::{Run, Target, Upgrade, Work};

verus! {

/// What the caller asked for.
pub struct OperationRequest {
    pub caller: Caller,
    pub key: KeyDescriptor,
    pub params: Vec<KeyParameter>,
    pub forced: bool,
}

/// An operation whose key the caller may use.
pub struct Operation {
    pub caller: Caller,
    /// Whether the caller handed over the key as a blob.
    pub self_managed: bool,
    pub forced: bool,
    pub purpose: KeyPurpose,
    /// The parameters without the purpose.
    pub params: Vec<KeyParameter>,
    /// The id and the parameters of a stored key.
    pub key_properties: Option<(i64, Vec<KsKeyParam>)>,
    pub attested: bool,
    pub blob_metadata: BlobMetaData,
}

/// The creation of an operation.
pub enum CreateOperation {
    /// May the caller use keys that it manages itself?
    CheckingUse(OperationRequest),
    /// May it force an operation?
    CheckingForced(OperationRequest),
    /// The key comes from the database.
    Loading(OperationRequest, Load),
    /// May the operation begin?
    Authorizing(Operation, Vec<u8>),
    /// The blob in the clear.
    Unwrapping { operation: Operation, blob: Vec<u8>, auth_token: Option<Handle>, auth_info: Handle },
    /// The device begins.
    Beginning { operation: Operation, auth_token: Option<Handle>, auth_info: Handle, run: Upgrade },
    /// What challenge is the caller to meet?
    Finalizing {
        operation: Operation,
        auth_info: Handle,
        begun: BeginResult,
        upgraded_blob: Option<Vec<u8>>,
    },
    /// What algorithm is it, for the records?
    Parsing {
        operation: Operation,
        auth_info: Handle,
        begun: BeginResult,
        upgraded_blob: Option<Vec<u8>>,
        challenge: Option<i64>,
    },
    /// The operation takes its place.
    Registering {
        operation: Operation,
        auth_info: Handle,
        km_operation: Handle,
        begin_params: Vec<KeyParameter>,
        upgraded_blob: Option<Vec<u8>>,
        challenge: Option<i64>,
        algorithm: i32,
    },
    /// The operation gets its interface.
    Binding {
        registered: Handle,
        begin_params: Vec<KeyParameter>,
        upgraded_blob: Option<Vec<u8>>,
        challenge: Option<i64>,
    },
    Done(Result<CreateOperationResponse, Error>),
}

impl Operation {
    /// The operation that the caller asked for, with this purpose and this key.
    pub open spec fn is_for(
        self,
        request: OperationRequest,
        purpose: KeyPurpose,
        key_properties: Option<(i64, Vec<KsKeyParam>)>,
        attested: bool,
        blob_metadata: BlobMetaData,
    ) -> bool {
        &&& self.caller == request.caller
        &&& self.self_managed == (request.key.domain == Domain::Blob)
        &&& self.forced == request.forced
        &&& self.purpose == purpose
        &&& model(self.params@) == without_tag(model(request.params@), Tag::Purpose)
        &&& self.key_properties == key_properties
        &&& self.attested == attested
        &&& self.blob_metadata == blob_metadata
    }

    /// The id of the stored key.
    pub open spec fn key_id(self) -> Option<i64> {
        match self.key_properties {
            Some((key_id, _)) => Some(key_id),
            None => None,
        }
    }

    /// The work that the device is to do.
    pub open spec fn work<'a>(&'a self, auth_token: Option<Handle>) -> Work<'a> {
        Work::Begin {
            purpose: self.purpose,
            params: &self.params,
            auth_token,
            uid: self.caller.uid,
            forced: self.forced,
            key_id: self.key_id(),
        }
    }

    fn stored_id(&self) -> (r: Option<i64>)
        ensures
            r == self.key_id(),
    {
        match &self.key_properties {
            Some((key_id, _)) => Some(*key_id),
            None => None,
        }
    }

    fn device_work<'a>(&'a self, auth_token: Option<Handle>) -> (r: Work<'a>)
        ensures
            r == self.work(auth_token),
    {
        Work::Begin {
            purpose: self.purpose,
            params: &self.params,
            auth_token,
            uid: self.caller.uid,
            forced: self.forced,
            key_id: self.stored_id(),
        }
    }
}

/// The error for what should not have happened.
pub open spec fn system_error() -> Error {
    Error::Rc(ResponseCode::SystemError)
}

impl CreateOperation {
    /// The creation, at its start.
    pub open spec fn of(request: OperationRequest) -> CreateOperation {
        if request.key.domain == Domain::Blob {
            CreateOperation::CheckingUse(request)
        } else {
            CreateOperation::Loading(request, Load::Loading)
        }
    }

    /// The key is at hand, and `self` is what follows: without a blob, or without a purpose,
    /// the creation is over.
    pub open spec fn follows_key(
        self,
        request: OperationRequest,
        blob: Option<Vec<u8>>,
        key_properties: Option<(i64, Vec<KsKeyParam>)>,
        attested: bool,
        blob_metadata: BlobMetaData,
    ) -> bool {
        match (blob, purpose_of(model(request.params@))) {
            (None, _) => self == CreateOperation::Done(Err(system_error())),
            (Some(_), Err(e)) => self == CreateOperation::Done(Err(e)),
            (Some(blob), Ok(purpose)) => {
                &&& self matches CreateOperation::Authorizing(operation, b)
                &&& b == blob
                &&& operation.is_for(request, purpose, key_properties, attested, blob_metadata)
            },
        }
    }

    /// The caller may use the key that it manages itself, and `self` is what follows.
    pub open spec fn follows_permission(self, request: OperationRequest) -> bool {
        self.follows_key(
            request,
            request.key.blob,
            None,
            false,
            BlobMetaData { km_uuid: None, others: None },
        )
    }

    /// What the creation waits for.
    pub open spec fn asks<'a>(&'a self, level: &KeystoreSecurityLevel) -> Request<'a> {
        match self {
            CreateOperation::CheckingUse(request) => Request::CheckKeyPermission {
                perm: KeyPerm::Use,
                key: &request.key,
                access: None,
            },
            CreateOperation::CheckingForced(request) => Request::CheckKeyPermission {
                perm: KeyPerm::ReqForcedOp,
                key: &request.key,
                access: None,
            },
            CreateOperation::Loading(request, load) => load.asks(
                &request.key,
                &request.key,
                request.caller,
                LoadBits::Both,
            ),
            CreateOperation::Authorizing(operation, _) => Request::AuthorizeCreate {
                purpose: operation.purpose,
                key_properties: match &operation.key_properties {
                    Some((key_id, parameters)) => Some((*key_id, parameters)),
                    None => None,
                },
                params: &operation.params,
                timestamp_token_required: level.hw_info.timestamp_token_required,
            },
            CreateOperation::Unwrapping { operation, blob, .. } => Request::UnwrapKeyIfRequired {
                blob_metadata: operation.blob_metadata,
                blob,
            },
            CreateOperation::Beginning { operation, auth_token, run, .. } => run.asks(
                level,
                operation.work(*auth_token),
            ),
            CreateOperation::Finalizing { auth_info, begun, .. } => {
                Request::FinalizeCreateAuthorization {
                    auth_info: *auth_info,
                    challenge: begun.challenge,
                }
            },
            CreateOperation::Parsing { operation, .. } => Request::ParseAlgorithm(
                match &operation.key_properties {
                    Some((_, parameters)) => AlgorithmSource::Stored(parameters),
                    None => AlgorithmSource::Operation(&operation.params),
                },
            ),
            CreateOperation::Registering {
                operation,
                auth_info,
                km_operation,
                upgraded_blob,
                algorithm,
                ..
            } => Request::CreateOperation {
                operation: *km_operation,
                uid: operation.caller.uid,
                auth_info: *auth_info,
                forced: operation.forced,
                logging_info: LoggingInfo {
                    security_level: level.security_level,
                    purpose: operation.purpose,
                    algorithm: *algorithm,
                    op_params: &operation.params,
                    key_upgraded: upgraded_blob is Some,
                    key_attested: operation.attested,
                },
            },
            CreateOperation::Binding { registered, .. } => Request::OperationBinder {
                operation: *registered,
            },
            CreateOperation::Done(_) => Request::Nothing,
        }
    }

    /// The creation stands at `next` after a reply.
    pub open spec fn goes_to(
        self,
        level: KeystoreSecurityLevel,
        reply: Reply,
        next: CreateOperation,
    ) -> bool {
        match (self, reply) {
            (CreateOperation::CheckingUse(request), Reply::Status(Ok(()))) => if request.forced {
                next == CreateOperation::CheckingForced(request)
            } else {
                next.follows_permission(request)
            },
            (CreateOperation::CheckingForced(request), Reply::Status(Ok(()))) => {
                next.follows_permission(request)
            },
            (
                CreateOperation::CheckingUse(_) | CreateOperation::CheckingForced(_),
                Reply::Status(Err(e)),
            ) => next == CreateOperation::Done(Err(e)),
            (CreateOperation::Loading(request, Load::Loading), Reply::Loaded(Ok(loaded))) => {
                next.follows_key(
                    request,
                    match loaded.blob_info {
                        Some((blob, _)) => Some(blob),
                        None => None,
                    },
                    Some((loaded.key_id, loaded.key_parameters)),
                    loaded.attested,
                    match loaded.blob_info {
                        Some((_, metadata)) => metadata,
                        None => BlobMetaData { km_uuid: None, others: None },
                    },
                )
            },
            (CreateOperation::Loading(_, Load::Loading), Reply::Loaded(Err(e))) => next
                == CreateOperation::Done(Err(e)),
            (CreateOperation::Loading(request, load), _) => next == CreateOperation::Loading(
                request,
                load.after(request.forced, reply),
            ),
            (
                CreateOperation::Authorizing(operation, blob),
                Reply::Authorized(Ok((auth_token, auth_info))),
            ) => next == (CreateOperation::Unwrapping { operation, blob, auth_token, auth_info }),
            (CreateOperation::Authorizing(_, _), Reply::Authorized(Err(e))) => next
                == CreateOperation::Done(Err(e)),
            (
                CreateOperation::Unwrapping { operation, auth_token, auth_info, .. },
                Reply::Unwrapped(Ok(key_blob)),
            ) => next == (CreateOperation::Beginning {
                operation,
                auth_token,
                auth_info,
                run: Upgrade::Running(
                    Run {
                        key_blob,
                        target: Target::Stored {
                            key_id: operation.key_id(),
                            km_uuid: operation.blob_metadata.km_uuid,
                        },
                    },
                ),
            }),
            (CreateOperation::Unwrapping { .. }, Reply::Unwrapped(Err(e))) => next
                == CreateOperation::Done(Err(e)),
            (CreateOperation::Beginning { operation, auth_token, auth_info, run }, _) => {
                match next {
                    CreateOperation::Finalizing { operation: o, auth_info: a, begun, upgraded_blob } => {
                        &&& o == operation
                        &&& a == auth_info
                        &&& run.goes_to(
                            level,
                            operation.work(auth_token),
                            reply,
                            Upgrade::Done(Ok((Outcome::Begun(begun), upgraded_blob))),
                        )
                    },
                    CreateOperation::Done(Err(e)) => run.goes_to(
                        level,
                        operation.work(auth_token),
                        reply,
                        Upgrade::Done(Err(e)),
                    ),
                    CreateOperation::Beginning {
                        operation: o,
                        auth_token: t,
                        auth_info: a,
                        run: r,
                    } => {
                        &&& o == operation
                        &&& t == auth_token
                        &&& a == auth_info
                        &&& !begun_or_failed(r)
                        &&& run.goes_to(level, operation.work(auth_token), reply, r)
                    },
                    _ => false,
                }
            },
            (
                CreateOperation::Finalizing { operation, auth_info, begun, upgraded_blob },
                Reply::Challenge(challenge),
            ) => next == (CreateOperation::Parsing {
                operation,
                auth_info,
                begun,
                upgraded_blob,
                challenge,
            }),
            (
                CreateOperation::Parsing { operation, auth_info, begun, upgraded_blob, challenge },
                Reply::AlgorithmCode(algorithm),
            ) => next == match begun.operation {
                Some(km_operation) => CreateOperation::Registering {
                    operation,
                    auth_info,
                    km_operation,
                    begin_params: begun.params,
                    upgraded_blob,
                    challenge,
                    algorithm,
                },
                None => CreateOperation::Done(Err(system_error())),
            },
            (
                CreateOperation::Registering {
                    operation,
                    begin_params,
                    upgraded_blob,
                    challenge,
                    ..
                },
                Reply::Registered(registered),
            ) => next == (CreateOperation::Binding {
                registered,
                begin_params,
                upgraded_blob: if operation.self_managed {
                    upgraded_blob
                } else {
                    None
                },
                challenge,
            }),
            (
                CreateOperation::Binding { begin_params, upgraded_blob, challenge, .. },
                Reply::Interface(Ok(interface)),
            ) => next == CreateOperation::Done(
                Ok(
                    CreateOperationResponse {
                        operation: interface,
                        operation_challenge: challenge,
                        parameters: if begin_params@.len() == 0 {
                            None
                        } else {
                            Some(begin_params)
                        },
                        upgraded_blob,
                    },
                ),
            ),
            (CreateOperation::Binding { .. }, Reply::Interface(Err(e))) => next
                == CreateOperation::Done(Err(e)),
            _ => next == self,
        }
    }
}

/// The run of the beginning is over.
pub open spec fn begun_or_failed(run: Upgrade) -> bool {
    match run {
        Upgrade::Done(Ok((Outcome::Begun(_), _))) => true,
        Upgrade::Done(Err(_)) => true,
        _ => false,
    }
}

impl KeystoreSecurityLevel {
    /// Starts the creation of an operation.
    pub fn create_operation(
        &self,
        caller: Caller,
        key: KeyDescriptor,
        operation_parameters: Vec<KeyParameter>,
        forced: bool,
    ) -> (r: CreateOperation)
        ensures
            r == CreateOperation::of(
                OperationRequest { caller, key, params: operation_parameters, forced },
            ),
    {
        let request = OperationRequest { caller, key, params: operation_parameters, forced };
        if request.key.domain == Domain::Blob {
            CreateOperation::CheckingUse(request)
        } else {
            CreateOperation::Loading(request, Load::Loading)
        }
    }
}

impl CreateOperation {
    fn with_key(
        request: OperationRequest,
        blob: Option<Vec<u8>>,
        key_properties: Option<(i64, Vec<KsKeyParam>)>,
        attested: bool,
        blob_metadata: BlobMetaData,
    ) -> (r: CreateOperation)
        ensures
            r.follows_key(request, blob, key_properties, attested, blob_metadata),
    {
        let blob = match blob {
            Some(blob) => blob,
            None => return CreateOperation::Done(Err(Error::sys())),
        };
        let purpose = match operation_purpose(request.params.as_slice()) {
            Ok(purpose) => purpose,
            Err(e) => return CreateOperation::Done(Err(e)),
        };
        // Some devices refuse to begin with the purpose among the parameters.
        let params = without_purpose(request.params.as_slice());
        CreateOperation::Authorizing(
            Operation {
                caller: request.caller,
                self_managed: request.key.domain == Domain::Blob,
                forced: request.forced,
                purpose,
                params,
                key_properties,
                attested,
                blob_metadata,
            },
            blob,
        )
    }

    fn with_permission(request: OperationRequest) -> (r: CreateOperation)
        ensures
            r.follows_permission(request),
    {
        let mut request = request;
        let blob = request.key.blob.take();
        CreateOperation::with_key(
            request,
            blob,
            None,
            false,
            BlobMetaData { km_uuid: None, others: None },
        )
    }

    /// What the creation waits for.
    pub fn pending<'a>(&'a self, level: &KeystoreSecurityLevel) -> (r: Request<'a>)
        ensures
            r == self.asks(level),
    {
        match self {
            CreateOperation::CheckingUse(request) => Request::CheckKeyPermission {
                perm: KeyPerm::Use,
                key: &request.key,
                access: None,
            },
            CreateOperation::CheckingForced(request) => Request::CheckKeyPermission {
                perm: KeyPerm::ReqForcedOp,
                key: &request.key,
                access: None,
            },
            CreateOperation::Loading(request, load) => load.pending(
                &request.key,
                &request.key,
                request.caller,
                LoadBits::Both,
            ),
            CreateOperation::Authorizing(operation, _) => Request::AuthorizeCreate {
                purpose: operation.purpose,
                key_properties: match &operation.key_properties {
                    Some((key_id, parameters)) => Some((*key_id, parameters)),
                    None => None,
                },
                params: &operation.params,
                timestamp_token_required: level.hw_info.timestamp_token_required,
            },
            CreateOperation::Unwrapping { operation, blob, .. } => Request::UnwrapKeyIfRequired {
                blob_metadata: operation.blob_metadata,
                blob,
            },
            CreateOperation::Beginning { operation, auth_token, run, .. } => run.pending(
                level,
                operation.device_work(*auth_token),
            ),
            CreateOperation::Finalizing { auth_info, begun, .. } => {
                Request::FinalizeCreateAuthorization {
                    auth_info: *auth_info,
                    challenge: begun.challenge,
                }
            },
            CreateOperation::Parsing { operation, .. } => Request::ParseAlgorithm(
                match &operation.key_properties {
                    Some((_, parameters)) => AlgorithmSource::Stored(parameters),
                    None => AlgorithmSource::Operation(&operation.params),
                },
            ),
            CreateOperation::Registering {
                operation,
                auth_info,
                km_operation,
                upgraded_blob,
                algorithm,
                ..
            } => Request::CreateOperation {
                operation: *km_operation,
                uid: operation.caller.uid,
                auth_info: *auth_info,
                forced: operation.forced,
                logging_info: LoggingInfo {
                    security_level: level.security_level,
                    purpose: operation.purpose,
                    algorithm: *algorithm,
                    op_params: &operation.params,
                    key_upgraded: upgraded_blob.is_some(),
                    key_attested: operation.attested,
                },
            },
            CreateOperation::Binding { registered, .. } => Request::OperationBinder {
                operation: *registered,
            },
            CreateOperation::Done(_) => Request::Nothing,
        }
    }

    /// Goes on from a reply.
    pub fn resume(self, level: &KeystoreSecurityLevel, reply: Reply) -> (next: CreateOperation)
        ensures
            self.goes_to(*level, reply, next),
    {
        match self {
            CreateOperation::CheckingUse(request) => match reply {
                Reply::Status(Ok(())) => if request.forced {
                    CreateOperation::CheckingForced(request)
                } else {
                    CreateOperation::with_permission(request)
                },
                Reply::Status(Err(e)) => CreateOperation::Done(Err(e)),
                _ => CreateOperation::CheckingUse(request),
            },
            CreateOperation::CheckingForced(request) => match reply {
                Reply::Status(Ok(())) => CreateOperation::with_permission(request),
                Reply::Status(Err(e)) => CreateOperation::Done(Err(e)),
                _ => CreateOperation::CheckingForced(request),
            },
            CreateOperation::Loading(request, load) => match (load, reply) {
                (Load::Loading, Reply::Loaded(Ok(loaded))) => {
                    let (blob, blob_metadata) = match loaded.blob_info {
                        Some((blob, blob_metadata)) => (Some(blob), blob_metadata),
                        None => (None, BlobMetaData { km_uuid: None, others: None }),
                    };
                    CreateOperation::with_key(
                        request,
                        blob,
                        Some((loaded.key_id, loaded.key_parameters)),
                        loaded.attested,
                        blob_metadata,
                    )
                },
                (Load::Loading, Reply::Loaded(Err(e))) => CreateOperation::Done(Err(e)),
                (load, reply) => {
                    let load = load.resume(request.forced, reply);
                    CreateOperation::Loading(request, load)
                },
            },
            CreateOperation::Authorizing(operation, blob) => match reply {
                Reply::Authorized(Ok((auth_token, auth_info))) => CreateOperation::Unwrapping {
                    operation,
                    blob,
                    auth_token,
                    auth_info,
                },
                Reply::Authorized(Err(e)) => CreateOperation::Done(Err(e)),
                _ => CreateOperation::Authorizing(operation, blob),
            },
            CreateOperation::Unwrapping { operation, blob, auth_token, auth_info } => match reply {
                Reply::Unwrapped(Ok(key_blob)) => {
                    let run = level.upgrade_keyblob_if_required_with(
                        operation.stored_id(),
                        key_blob,
                        operation.blob_metadata.km_uuid,
                    );
                    CreateOperation::Beginning { operation, auth_token, auth_info, run }
                },
                Reply::Unwrapped(Err(e)) => CreateOperation::Done(Err(e)),
                _ => CreateOperation::Unwrapping { operation, blob, auth_token, auth_info },
            },
            CreateOperation::Beginning { operation, auth_token, auth_info, run } => {
                match run.resume(level, operation.device_work(auth_token), reply) {
                    Upgrade::Done(Ok((Outcome::Begun(begun), upgraded_blob))) => {
                        CreateOperation::Finalizing { operation, auth_info, begun, upgraded_blob }
                    },
                    Upgrade::Done(Err(e)) => CreateOperation::Done(Err(e)),
                    run => CreateOperation::Beginning { operation, auth_token, auth_info, run },
                }
            },
            CreateOperation::Finalizing { operation, auth_info, begun, upgraded_blob } => {
                match reply {
                    Reply::Challenge(challenge) => CreateOperation::Parsing {
                        operation,
                        auth_info,
                        begun,
                        upgraded_blob,
                        challenge,
                    },
                    _ => CreateOperation::Finalizing { operation, auth_info, begun, upgraded_blob },
                }
            },
            CreateOperation::Parsing { operation, auth_info, begun, upgraded_blob, challenge } => {
                match reply {
                    Reply::AlgorithmCode(algorithm) => match begun.operation {
                        Some(km_operation) => CreateOperation::Registering {
                            operation,
                            auth_info,
                            km_operation,
                            begin_params: begun.params,
                            upgraded_blob,
                            challenge,
                            algorithm,
                        },
                        None => CreateOperation::Done(Err(Error::sys())),
                    },
                    _ => CreateOperation::Parsing {
                        operation,
                        auth_info,
                        begun,
                        upgraded_blob,
                        challenge,
                    },
                }
            },
            CreateOperation::Registering {
                operation,
                auth_info,
                km_operation,
                begin_params,
                upgraded_blob,
                challenge,
                algorithm,
            } => match reply {
                Reply::Registered(registered) => {
                    // Only a caller that manages its keys itself can do anything with the
                    // upgraded blob.
                    let upgraded_blob = if operation.self_managed {
                        upgraded_blob
                    } else {
                        None
                    };
                    CreateOperation::Binding { registered, begin_params, upgraded_blob, challenge }
                },
                _ => CreateOperation::Registering {
                    operation,
                    auth_info,
                    km_operation,
                    begin_params,
                    upgraded_blob,
                    challenge,
                    algorithm,
                },
            },
            CreateOperation::Binding { registered, begin_params, upgraded_blob, challenge } => {
                match reply {
                    Reply::Interface(Ok(interface)) => {
                        let parameters = if begin_params.len() == 0 {
                            None
                        } else {
                            Some(begin_params)
                        };
                        CreateOperation::Done(
                            Ok(
                                CreateOperationResponse {
                                    operation: interface,
                                    operation_challenge: challenge,
                                    parameters,
                                    upgraded_blob,
                                },
                            ),
                        )
                    },
                    Reply::Interface(Err(e)) => CreateOperation::Done(Err(e)),
                    _ => CreateOperation::Binding {
                        registered,
                        begin_params,
                        upgraded_blob,
                        challenge,
                    },
                }
            },
            CreateOperation::Done(r) => CreateOperation::Done(r),
        }
    }
}

// ---------------------------------------------------------------------------------------
// Laws
// ---------------------------------------------------------------------------------------
impl Operation {
    /// This is the operation that the caller asked for: its purpose is the one among the
    /// parameters, which are the caller's without it, and its key is a stored one unless the
    /// caller handed it over.
    pub open spec fn belongs_to(self, request: OperationRequest) -> bool {
        &&& self.caller == request.caller
        &&& self.self_managed == (request.key.domain == Domain::Blob)
        &&& self.forced == request.forced
        &&& purpose_of(model(request.params@)) == Ok::<KeyPurpose, Error>(self.purpose)
        &&& model(self.params@) == without_tag(model(request.params@), Tag::Purpose)
        &&& self.self_managed <==> self.key_properties is None
    }
}

impl CreateOperation {
    /// The creation went through these stages, with these replies between them.
    pub open spec fn run(
        level: KeystoreSecurityLevel,
        stages: Seq<CreateOperation>,
        replies: Seq<Reply>,
    ) -> bool {
        &&& stages.len() == replies.len() + 1
        &&& forall|i: int|
            #![trigger replies[i]]
            0 <= i < replies.len() ==> stages[i].goes_to(level, replies[i], stages[i + 1])
    }

    /// What holds at every stage of the creation that the caller asked for.
    pub open spec fn keeps_to(self, request: OperationRequest) -> bool {
        match self {
            CreateOperation::CheckingUse(r) => r == request && request.key.domain == Domain::Blob,
            CreateOperation::CheckingForced(r) => {
                r == request && request.key.domain == Domain::Blob && request.forced
            },
            CreateOperation::Loading(r, _) => r == request && request.key.domain != Domain::Blob,
            CreateOperation::Authorizing(operation, _)
            | CreateOperation::Unwrapping { operation, .. }
            | CreateOperation::Beginning { operation, .. }
            | CreateOperation::Finalizing { operation, .. }
            | CreateOperation::Parsing { operation, .. }
            | CreateOperation::Registering { operation, .. } => operation.belongs_to(request),
            CreateOperation::Binding { upgraded_blob, .. } => request.key.domain != Domain::Blob
                ==> upgraded_blob is None,
            CreateOperation::Done(Ok(response)) => request.key.domain != Domain::Blob
                ==> response.upgraded_blob is None,
            CreateOperation::Done(Err(_)) => true,
        }
    }

    /// The caller was found to have the permissions on a key that it manages itself.
    pub open spec fn is_past_permissions(self) -> bool {
        match self {
            CreateOperation::CheckingUse(_) => false,
            CreateOperation::CheckingForced(_) => false,
            CreateOperation::Done(Err(_)) => false,
            _ => true,
        }
    }
}

/// At no stage does the creation lose what the caller asked for.
pub proof fn law_creation_keeps_to_the_request(
    level: KeystoreSecurityLevel,
    request: OperationRequest,
    stages: Seq<CreateOperation>,
    replies: Seq<Reply>,
    n: int,
)
    requires
        CreateOperation::run(level, stages, replies),
        stages[0] == CreateOperation::of(request),
        0 <= n < stages.len(),
    ensures
        stages[n].keeps_to(request),
    decreases n,
{
    if n > 0 {
        law_creation_keeps_to_the_request(level, request, stages, replies, n - 1);
        let _ = replies[n - 1];
        assert(stages[n - 1].goes_to(level, replies[n - 1], stages[n]));
    }
}

/// What the services answered on the way to an operation.
pub struct Gained {
    pub loaded: Option<LoadedKey>,
    /// The token for the device, and the authorization.
    pub authorized: Option<(Option<Handle>, Handle)>,
    /// The blob in the clear.
    pub unwrapped: Option<KeyBlob>,
    /// The outcome of the run: what the device returned, and the upgraded blob.
    pub begun: Option<(BeginResult, Option<Vec<u8>>)>,
    pub challenge: Option<i64>,
    pub algorithm: i32,
    pub registered: Option<Handle>,
    pub interface: Option<Handle>,
}

impl Gained {
    /// The run works on this blob, and holds what the device returned once that is all that is
    /// left to do.
    pub open spec fn has_run(self, run: Upgrade) -> bool {
        match run {
            Upgrade::Running(run)
            | Upgrade::Attempting(run, _)
            | Upgrade::Keeping(run, _)
            | Upgrade::KeepingRkpd(run, _)
            | Upgrade::Kept(run, _) => self.unwrapped == Some(run.key_blob),
            Upgrade::Reencrypting(key_blob, done, _) => {
                &&& self.unwrapped == Some(key_blob)
                &&& self.has_begun(done)
            },
            Upgrade::Done(_) => false,
        }
    }

    /// This is the outcome of the run.
    pub open spec fn has_begun(self, done: (Outcome, Option<Vec<u8>>)) -> bool {
        &&& done.0 is Begun
        &&& self.begun == Some((done.0->Begun_0, done.1))
    }

    /// The key of the operation is the one that was loaded, or the caller's own.
    pub open spec fn has_key(self, request: OperationRequest, operation: Operation) -> bool {
        if request.key.domain == Domain::Blob {
            &&& operation.key_properties is None
            &&& !operation.attested
            &&& operation.blob_metadata == BlobMetaData { km_uuid: None, others: None }
        } else {
            &&& self.loaded matches Some(loaded)
            &&& operation.key_properties == Some((loaded.key_id, loaded.key_parameters))
            &&& operation.attested == loaded.attested
            &&& loaded.blob_info matches Some((_, blob_metadata))
            &&& operation.blob_metadata == blob_metadata
        }
    }

    /// This is the authorization.
    pub open spec fn is_authorized_by(self, auth_info: Handle) -> bool {
        self.authorized matches Some((_, authorized)) && authorized == auth_info
    }

    /// This is the blob of the key.
    pub open spec fn has_blob(self, request: OperationRequest, blob: Vec<u8>) -> bool {
        if request.key.domain == Domain::Blob {
            request.key.blob == Some(blob)
        } else {
            &&& self.loaded matches Some(loaded)
            &&& loaded.blob_info matches Some((b, _))
            &&& b == blob
        }
    }
}

impl CreateOperation {
    /// What was gained once this stage got this reply.
    pub open spec fn gains(self, reply: Reply, before: Gained) -> Gained {
        match (self, reply) {
            (CreateOperation::Loading(_, Load::Loading), Reply::Loaded(Ok(loaded))) => Gained {
                loaded: Some(loaded),
                ..before
            },
            (CreateOperation::Authorizing(_, _), Reply::Authorized(Ok(authorized))) => Gained {
                authorized: Some(authorized),
                ..before
            },
            (CreateOperation::Unwrapping { .. }, Reply::Unwrapped(Ok(key_blob))) => Gained {
                unwrapped: Some(key_blob),
                ..before
            },
            (
                CreateOperation::Beginning { run: Upgrade::Running(_), .. },
                Reply::UpgradeDone(Ok((Outcome::Begun(begun), upgraded_blob))),
            ) => Gained { begun: Some((begun, upgraded_blob)), ..before },
            (CreateOperation::Finalizing { .. }, Reply::Challenge(challenge)) => Gained {
                challenge,
                ..before
            },
            (CreateOperation::Parsing { .. }, Reply::AlgorithmCode(algorithm)) => Gained {
                algorithm,
                ..before
            },
            (CreateOperation::Registering { .. }, Reply::Registered(registered)) => Gained {
                registered: Some(registered),
                ..before
            },
            (CreateOperation::Binding { .. }, Reply::Interface(Ok(interface))) => Gained {
                interface: Some(interface),
                ..before
            },
            _ => before,
        }
    }

    /// What was gained in the first `n` steps.
    pub open spec fn gained_in(stages: Seq<CreateOperation>, replies: Seq<Reply>, n: int) -> Gained
        decreases n,
    {
        if n <= 0 {
            Gained {
                loaded: None,
                authorized: None,
                unwrapped: None,
                begun: None,
                challenge: None,
                algorithm: 0,
                registered: None,
                interface: None,
            }
        } else {
            stages[n - 1].gains(
                replies[n - 1],
                CreateOperation::gained_in(stages, replies, n - 1),
            )
        }
    }

    /// The stage holds what was gained so far, and nothing else.
    pub open spec fn reflects(self, request: OperationRequest, g: Gained) -> bool {
        match self {
            CreateOperation::Authorizing(operation, blob) => {
                g.has_key(request, operation) && g.has_blob(request, blob)
            },
            CreateOperation::Unwrapping { operation, blob, auth_token, auth_info } => {
                &&& g.has_key(request, operation) && g.has_blob(request, blob)
                &&& g.authorized == Some((auth_token, auth_info))
            },
            CreateOperation::Beginning { operation, auth_token, auth_info, run } => {
                &&& g.has_key(request, operation)
                &&& g.authorized == Some((auth_token, auth_info))
                &&& g.has_run(run)
            },
            CreateOperation::Finalizing { operation, auth_info, begun, upgraded_blob } => {
                &&& g.has_key(request, operation)
                &&& g.is_authorized_by(auth_info)
                &&& g.begun == Some((begun, upgraded_blob))
            },
            CreateOperation::Parsing { operation, auth_info, begun, upgraded_blob, challenge } => {
                &&& g.has_key(request, operation)
                &&& g.is_authorized_by(auth_info)
                &&& g.begun == Some((begun, upgraded_blob))
                &&& g.challenge == challenge
            },
            CreateOperation::Registering {
                operation,
                auth_info,
                km_operation,
                begin_params,
                upgraded_blob,
                challenge,
                algorithm,
            } => {
                &&& g.has_key(request, operation)
                &&& g.is_authorized_by(auth_info)
                &&& g.begun matches Some((begun, up))
                &&& begun.operation == Some(km_operation)
                &&& begun.params == begin_params
                &&& up == upgraded_blob
                &&& g.challenge == challenge
                &&& g.algorithm == algorithm
            },
            CreateOperation::Binding { registered, begin_params, upgraded_blob, challenge } => {
                &&& g.registered == Some(registered)
                &&& g.begun matches Some((begun, up))
                &&& begun.operation is Some
                &&& begun.params == begin_params
                &&& upgraded_blob == if request.key.domain == Domain::Blob {
                    up
                } else {
                    None
                }
                &&& g.challenge == challenge
            },
            CreateOperation::Done(Ok(response)) => {
                &&& g.interface == Some(response.operation)
                &&& g.begun matches Some((begun, up))
                &&& begun.operation is Some
                &&& response.parameters == if begun.params@.len() == 0 {
                    None
                } else {
                    Some(begun.params)
                }
                &&& response.upgraded_blob == if request.key.domain == Domain::Blob {
                    up
                } else {
                    None
                }
                &&& response.operation_challenge == g.challenge
            },
            _ => true,
        }
    }
}

/// At every stage the creation holds what the services answered in this run: the key that was
/// loaded, the token and the authorization, what the device returned, the challenge, and the
/// operation that was registered. What the caller gets in the end is made of these.
pub proof fn law_creation_reflects_the_answers(
    level: KeystoreSecurityLevel,
    request: OperationRequest,
    stages: Seq<CreateOperation>,
    replies: Seq<Reply>,
    n: int,
)
    requires
        CreateOperation::run(level, stages, replies),
        stages[0] == CreateOperation::of(request),
        0 <= n < stages.len(),
    ensures
        stages[n].reflects(request, CreateOperation::gained_in(stages, replies, n)),
    decreases n,
{
    if n > 0 {
        law_creation_reflects_the_answers(level, request, stages, replies, n - 1);
        law_creation_keeps_to_the_request(level, request, stages, replies, n - 1);
        let _ = replies[n - 1];
        lemma_reflects_step(
            level,
            request,
            CreateOperation::gained_in(stages, replies, n - 1),
            stages[n - 1],
            replies[n - 1],
            stages[n],
        );
    }
}

proof fn lemma_reflects_step(
    level: KeystoreSecurityLevel,
    request: OperationRequest,
    g: Gained,
    stage: CreateOperation,
    reply: Reply,
    next: CreateOperation,
)
    requires
        stage.keeps_to(request),
        stage.reflects(request, g),
        stage.goes_to(level, reply, next),
    ensures
        next.reflects(request, stage.gains(reply, g)),
{
    match (stage, next) {
        (
            CreateOperation::Beginning { operation, auth_token, run, .. },
            CreateOperation::Beginning { run: again, .. },
        ) => {
            lemma_gained_run(level, operation.work(auth_token), g, stage, run, reply, again);
        },
        (
            CreateOperation::Beginning { operation, auth_token, run, .. },
            CreateOperation::Finalizing { begun, upgraded_blob, .. },
        ) => {
            let done = Upgrade::Done(Ok((Outcome::Begun(begun), upgraded_blob)));
            lemma_gained_run(level, operation.work(auth_token), g, stage, run, reply, done);
        },
        _ => {},
    }
}

proof fn lemma_gained_run(
    level: KeystoreSecurityLevel,
    work: Work,
    g: Gained,
    stage: CreateOperation,
    run: Upgrade,
    reply: Reply,
    next: Upgrade,
)
    requires
        stage is Beginning,
        stage->Beginning_run == run,
        work is Begin,
        g.has_run(run),
        run.goes_to(level, work, reply, next),
    ensures
        !(next is Done) ==> stage.gains(reply, g).has_run(next),
        next matches Upgrade::Done(Ok(done)) ==> stage.gains(reply, g).has_begun(done),
{
}

/// The device begins the operation with the purpose that the caller gave, and does not get it
/// among the parameters, which are otherwise the caller's.
pub proof fn law_device_gets_the_purpose_apart(
    level: KeystoreSecurityLevel,
    request: OperationRequest,
    stages: Seq<CreateOperation>,
    replies: Seq<Reply>,
    n: int,
)
    requires
        CreateOperation::run(level, stages, replies),
        stages[0] == CreateOperation::of(request),
        0 <= n < stages.len(),
    ensures
        stages[n].asks(&level) matches Request::Begin { purpose, params, .. } ==> {
            &&& purpose_of(model(request.params@)) == Ok::<KeyPurpose, Error>(purpose)
            &&& model(params@) == without_tag(model(request.params@), Tag::Purpose)
            &&& !has_tag(model(params@), Tag::Purpose)
        },
        stages[n].asks(&level) matches Request::AuthorizeCreate { purpose, params, .. } ==> {
            &&& purpose_of(model(request.params@)) == Ok::<KeyPurpose, Error>(purpose)
            &&& model(params@) == without_tag(model(request.params@), Tag::Purpose)
        },
{
    law_creation_keeps_to_the_request(level, request, stages, replies, n);
    law_purpose_is_gone(model(request.params@));
}

/// An upgraded blob goes back only to a caller that handed over the key as a blob.
pub proof fn law_upgraded_blob_goes_back_only_for_a_blob(
    level: KeystoreSecurityLevel,
    request: OperationRequest,
    stages: Seq<CreateOperation>,
    replies: Seq<Reply>,
    n: int,
    response: CreateOperationResponse,
)
    requires
        CreateOperation::run(level, stages, replies),
        stages[0] == CreateOperation::of(request),
        0 <= n < stages.len(),
        stages[n] == CreateOperation::Done(Ok(response)),
        request.key.domain != Domain::Blob,
    ensures
        response.upgraded_blob is None,
{
    law_creation_keeps_to_the_request(level, request, stages, replies, n);
}

/// At step `m` the caller was granted this permission on this key.
pub open spec fn granted_at(
    level: KeystoreSecurityLevel,
    stages: Seq<CreateOperation>,
    replies: Seq<Reply>,
    m: int,
    perm: KeyPerm,
    key: KeyDescriptor,
) -> bool {
    &&& 0 <= m < replies.len()
    &&& stages[m].asks(&level) == (Request::CheckKeyPermission { perm, key: &key, access: None })
    &&& replies[m] matches Reply::Status(r)
    &&& r is Ok
}

/// An operation with a key that the caller handed over goes on only after the caller was
/// granted the use of such keys and, for a forced operation, to force one.
pub proof fn law_self_managed_key_needs_permissions(
    level: KeystoreSecurityLevel,
    request: OperationRequest,
    stages: Seq<CreateOperation>,
    replies: Seq<Reply>,
    n: int,
)
    requires
        CreateOperation::run(level, stages, replies),
        stages[0] == CreateOperation::of(request),
        0 <= n < stages.len(),
        request.key.domain == Domain::Blob,
        stages[n].is_past_permissions(),
    ensures
        exists|m: int|
            m < n && #[trigger] granted_at(level, stages, replies, m, KeyPerm::Use, request.key),
        request.forced ==> exists|m: int|
            m < n && #[trigger] granted_at(
                level,
                stages,
                replies,
                m,
                KeyPerm::ReqForcedOp,
                request.key,
            ),
{
    lemma_permissions(level, request, stages, replies, n);
}

proof fn lemma_permissions(
    level: KeystoreSecurityLevel,
    request: OperationRequest,
    stages: Seq<CreateOperation>,
    replies: Seq<Reply>,
    n: int,
)
    requires
        CreateOperation::run(level, stages, replies),
        stages[0] == CreateOperation::of(request),
        0 <= n < stages.len(),
        request.key.domain == Domain::Blob,
    ensures
        stages[n].is_past_permissions() || stages[n] is CheckingForced ==> exists|m: int|
            m < n && #[trigger] granted_at(level, stages, replies, m, KeyPerm::Use, request.key),
        stages[n].is_past_permissions() && request.forced ==> exists|m: int|
            m < n && #[trigger] granted_at(
                level,
                stages,
                replies,
                m,
                KeyPerm::ReqForcedOp,
                request.key,
            ),
    decreases n,
{
    if n > 0 {
        lemma_permissions(level, request, stages, replies, n - 1);
        law_creation_keeps_to_the_request(level, request, stages, replies, n - 1);
        let _ = replies[n - 1];
        assert(stages[n - 1].goes_to(level, replies[n - 1], stages[n]));
        if stages[n - 1] is CheckingUse && (stages[n].is_past_permissions()
            || stages[n] is CheckingForced) {
            assert(granted_at(level, stages, replies, n - 1, KeyPerm::Use, request.key));
        }
        if stages[n - 1] is CheckingForced && stages[n].is_past_permissions() {
            assert(granted_at(level, stages, replies, n - 1, KeyPerm::ReqForcedOp, request.key));
        }
    }
}

impl CreateOperation {
    /// The authorization under which the device is to begin: the token for it, and the
    /// authorization itself.
    pub open spec fn authorization(self) -> Option<(Option<Handle>, Handle)> {
        match self {
            CreateOperation::Unwrapping { auth_token, auth_info, .. } => Some(
                (auth_token, auth_info),
            ),
            CreateOperation::Beginning { auth_token, auth_info, .. } => Some(
                (auth_token, auth_info),
            ),
            _ => None,
        }
    }
}

/// At step `m` the operation was authorized, with this token for the device.
pub open spec fn authorized_at(
    stages: Seq<CreateOperation>,
    replies: Seq<Reply>,
    m: int,
    authorization: (Option<Handle>, Handle),
) -> bool {
    &&& 0 <= m < replies.len()
    &&& stages[m] is Authorizing
    &&& replies[m] == Reply::Authorized(Ok(authorization))
}

/// The device begins an operation only after that was authorized, and gets the token of that
/// authorization.
pub proof fn law_device_begins_only_what_is_authorized(
    level: KeystoreSecurityLevel,
    request: OperationRequest,
    stages: Seq<CreateOperation>,
    replies: Seq<Reply>,
    n: int,
)
    requires
        CreateOperation::run(level, stages, replies),
        stages[0] == CreateOperation::of(request),
        0 <= n < stages.len(),
    ensures
        stages[n].asks(&level) matches Request::Begin { auth_token, .. } ==> stages[n].authorization() matches Some(
            a,
        ) && a.0 == auth_token,
        stages[n].authorization() is Some ==> exists|m: int|
            m < n && #[trigger] authorized_at(
                stages,
                replies,
                m,
                stages[n].authorization()->0,
            ),
    decreases n,
{
    if n > 0 {
        law_device_begins_only_what_is_authorized(level, request, stages, replies, n - 1);
        let _ = replies[n - 1];
        assert(stages[n - 1].goes_to(level, replies[n - 1], stages[n]));
        if stages[n].authorization() is Some {
            let authorization = stages[n].authorization()->0;
            if stages[n - 1].authorization() is Some {
                assert(stages[n - 1].authorization() == stages[n].authorization());
                let m = choose|m: int|
                    m < n - 1 && #[trigger] authorized_at(
                        stages,
                        replies,
                        m,
                        stages[n - 1].authorization()->0,
                    );
                assert(authorized_at(stages, replies, m, authorization));
            } else {
                assert(authorized_at(stages, replies, n - 1, authorization));
            }
        }
    }
}

// ---------------------------------------------------------------------------------------
// Permissions on stored keys
// ---------------------------------------------------------------------------------------
impl CreateOperation {
    /// The database heeds what it is told: once it was told that the caller may not have the
    /// key, it does not hand it out.
    pub open spec fn database_heeds(
        level: KeystoreSecurityLevel,
        stages: Seq<CreateOperation>,
        replies: Seq<Reply>,
    ) -> bool {
        forall|i: int, j: int|
            #![trigger replies[i], replies[j]]
            0 <= i < j < replies.len() && tells_refusal(stages[i].asks(&level), replies[i])
                ==> !hands_out(stages[j].asks(&level), replies[j])
    }

    /// The database asks first: it hands out a key only after it was told that the caller may
    /// have it.
    pub open spec fn database_asks_first(
        level: KeystoreSecurityLevel,
        stages: Seq<CreateOperation>,
        replies: Seq<Reply>,
    ) -> bool {
        forall|j: int|
            #![trigger replies[j]]
            0 <= j < replies.len() && hands_out(stages[j].asks(&level), replies[j])
                ==> CreateOperation::was_told_grant(level, stages, replies, j)
    }

    /// In the first `n` steps the database was told that the caller may have the key.
    pub open spec fn was_told_grant(
        level: KeystoreSecurityLevel,
        stages: Seq<CreateOperation>,
        replies: Seq<Reply>,
        n: int,
    ) -> bool {
        exists|i: int| 0 <= i < n && #[trigger] tells_grant(stages[i].asks(&level), replies[i])
    }

    /// In the first `n` steps the caller was granted this permission.
    pub open spec fn was_granted(
        level: KeystoreSecurityLevel,
        stages: Seq<CreateOperation>,
        replies: Seq<Reply>,
        n: int,
        perm: KeyPerm,
    ) -> bool {
        exists|i: int|
            0 <= i < n && #[trigger] is_grant(stages[i].asks(&level), replies[i], perm)
    }

    /// In the first `n` steps the database was told that the caller may not have the key.
    spec fn was_told_refusal(
        level: KeystoreSecurityLevel,
        stages: Seq<CreateOperation>,
        replies: Seq<Reply>,
        n: int,
    ) -> bool {
        exists|i: int| 0 <= i < n && #[trigger] tells_refusal(stages[i].asks(&level), replies[i])
    }

    /// The key is at hand, or the creation is over.
    spec fn is_past_key(self) -> bool {
        !(self is CheckingUse || self is CheckingForced || self is Loading)
    }
}

proof fn lemma_key_stays_at_hand(
    level: KeystoreSecurityLevel,
    stages: Seq<CreateOperation>,
    replies: Seq<Reply>,
    n: int,
    m: int,
)
    requires
        CreateOperation::run(level, stages, replies),
        0 <= n <= m < stages.len(),
        stages[n].is_past_key(),
    ensures
        stages[m].is_past_key(),
    decreases m,
{
    if n < m {
        lemma_key_stays_at_hand(level, stages, replies, n, m - 1);
        let _ = replies[m - 1];
        assert(stages[m - 1].goes_to(level, replies[m - 1], stages[m]));
    }
}

/// What a refusal at step `m` leads to, as long as the database heeds it.
proof fn lemma_refused(
    level: KeystoreSecurityLevel,
    stages: Seq<CreateOperation>,
    replies: Seq<Reply>,
    m: int,
    n: int,
)
    requires
        CreateOperation::run(level, stages, replies),
        CreateOperation::database_heeds(level, stages, replies),
        0 <= m < replies.len(),
        is_refusal(stages[m].asks(&level), replies[m]),
        m < n < stages.len(),
    ensures
        match stages[n] {
            CreateOperation::Done(Err(_)) => true,
            CreateOperation::Loading(_, Load::Verdict(Err(_))) => true,
            CreateOperation::Loading(_, _) => CreateOperation::was_told_refusal(
                level,
                stages,
                replies,
                n,
            ),
            _ => false,
        },
    decreases n,
{
    let reply = replies[n - 1];
    assert(stages[n - 1].goes_to(level, reply, stages[n]));
    if m < n - 1 {
        lemma_refused(level, stages, replies, m, n - 1);
        if let CreateOperation::Loading(_, Load::Verdict(Err(_))) = stages[n - 1] {
            if reply is Returned {
                assert(tells_refusal(stages[n - 1].asks(&level), replies[n - 1]));
            }
        } else if stages[n - 1] is Loading {
            let i = choose|i: int|
                0 <= i < n - 1 && #[trigger] tells_refusal(stages[i].asks(&level), replies[i]);
            let _ = replies[i];
            assert(!hands_out(stages[n - 1].asks(&level), replies[n - 1]));
            assert(tells_refusal(stages[i].asks(&level), replies[i]));
        }
    } else {
        lemma_only_these_check(level, stages[m]);
    }
}

/// Only the stages before the key is at hand ask for a permission on it.
proof fn lemma_only_these_check(level: KeystoreSecurityLevel, stage: CreateOperation)
    ensures
        stage.asks(&level) is CheckKeyPermission ==> !stage.is_past_key(),
{
}

/// Whatever key an operation is for: where the caller is refused a permission, and the database
/// does not hand out a key of which it was told so, the device never begins and the creation does
/// not succeed.
pub proof fn law_refused_operation_does_not_begin(
    level: KeystoreSecurityLevel,
    stages: Seq<CreateOperation>,
    replies: Seq<Reply>,
    m: int,
    n: int,
)
    requires
        CreateOperation::run(level, stages, replies),
        CreateOperation::database_heeds(level, stages, replies),
        0 <= m < replies.len(),
        is_refusal(stages[m].asks(&level), replies[m]),
        0 <= n < stages.len(),
    ensures
        !(stages[n].asks(&level) is Begin),
        stages[n] matches CreateOperation::Done(r) ==> r is Err,
{
    if m < n {
        lemma_refused(level, stages, replies, m, n);
    } else {
        lemma_only_these_check(level, stages[m]);
        if stages[n].is_past_key() {
            lemma_key_stays_at_hand(level, stages, replies, n, m);
        }
    }
}

/// What was granted on the way to each stage of the creation of an operation.
proof fn lemma_stored_key_granted(
    level: KeystoreSecurityLevel,
    request: OperationRequest,
    stages: Seq<CreateOperation>,
    replies: Seq<Reply>,
    n: int,
)
    requires
        CreateOperation::run(level, stages, replies),
        CreateOperation::database_asks_first(level, stages, replies),
        stages[0] == CreateOperation::of(request),
        request.key.domain != Domain::Blob,
        0 <= n < stages.len(),
    ensures
        stages[n] matches CreateOperation::Loading(r, load) ==> {
            &&& r == request
            &&& load is CheckingForced || load.permits() ==> CreateOperation::was_granted(
                level,
                stages,
                replies,
                n,
                KeyPerm::Use,
            )
            &&& load.permits() && request.forced ==> CreateOperation::was_granted(
                level,
                stages,
                replies,
                n,
                KeyPerm::ReqForcedOp,
            )
            &&& CreateOperation::was_told_grant(level, stages, replies, n) ==> {
                &&& CreateOperation::was_granted(level, stages, replies, n, KeyPerm::Use)
                &&& request.forced ==> CreateOperation::was_granted(
                    level,
                    stages,
                    replies,
                    n,
                    KeyPerm::ReqForcedOp,
                )
            }
        },
        !(stages[n] is Loading) && !(stages[n] matches CreateOperation::Done(Err(_))) ==> {
            &&& stages[n].is_past_key()
            &&& CreateOperation::was_granted(level, stages, replies, n, KeyPerm::Use)
            &&& request.forced ==> CreateOperation::was_granted(
                level,
                stages,
                replies,
                n,
                KeyPerm::ReqForcedOp,
            )
        },
    decreases n,
{
    if n > 0 {
        lemma_stored_key_granted(level, request, stages, replies, n - 1);
        let reply = replies[n - 1];
        assert(stages[n - 1].goes_to(level, reply, stages[n]));
        lemma_granted_so_far(level, stages, replies, n, KeyPerm::Use);
        lemma_granted_so_far(level, stages, replies, n, KeyPerm::ReqForcedOp);
        if let CreateOperation::Loading(_, load) = stages[n - 1] {
            if CreateOperation::was_told_grant(level, stages, replies, n)
                && !CreateOperation::was_told_grant(level, stages, replies, n - 1) {
                let i = choose|i: int|
                    0 <= i < n && #[trigger] tells_grant(stages[i].asks(&level), replies[i]);
                assert(i == n - 1);
                assert(load is Verdict);
            }
        }
    }
}

/// What was granted earlier was granted, and so was what this step grants.
proof fn lemma_granted_so_far(
    level: KeystoreSecurityLevel,
    stages: Seq<CreateOperation>,
    replies: Seq<Reply>,
    n: int,
    perm: KeyPerm,
)
    requires
        0 < n < stages.len(),
    ensures
        CreateOperation::was_granted(level, stages, replies, n - 1, perm)
            ==> CreateOperation::was_granted(level, stages, replies, n, perm),
        is_grant(stages[n - 1].asks(&level), replies[n - 1], perm)
            ==> CreateOperation::was_granted(level, stages, replies, n, perm),
{
    if CreateOperation::was_granted(level, stages, replies, n - 1, perm) {
        let i = choose|i: int|
            0 <= i < n - 1 && #[trigger] is_grant(stages[i].asks(&level), replies[i], perm);
        assert(is_grant(stages[i].asks(&level), replies[i], perm));
    }
}

/// Where the database asks before it hands out a stored key, the device begins an operation with
/// it, and the creation succeeds, only after the caller was granted its use and, for a forced
/// operation, to force one.
pub proof fn law_stored_key_needs_permissions(
    level: KeystoreSecurityLevel,
    request: OperationRequest,
    stages: Seq<CreateOperation>,
    replies: Seq<Reply>,
    n: int,
)
    requires
        CreateOperation::run(level, stages, replies),
        CreateOperation::database_asks_first(level, stages, replies),
        stages[0] == CreateOperation::of(request),
        request.key.domain != Domain::Blob,
        0 <= n < stages.len(),
        stages[n].asks(&level) is Begin || stages[n] matches CreateOperation::Done(Ok(_)),
    ensures
        CreateOperation::was_granted(level, stages, replies, n, KeyPerm::Use),
        request.forced ==> CreateOperation::was_granted(
            level,
            stages,
            replies,
            n,
            KeyPerm::ReqForcedOp,
        ),
{
    lemma_stored_key_granted(level, request, stages, replies, n);
}

/// Without force, nobody is asked whether the caller may force an operation: the outcome does
/// not depend on that permission.
pub proof fn law_force_is_asked_about_only_if_used(
    level: KeystoreSecurityLevel,
    request: OperationRequest,
    stages: Seq<CreateOperation>,
    replies: Seq<Reply>,
    n: int,
)
    requires
        CreateOperation::run(level, stages, replies),
        stages[0] == CreateOperation::of(request),
        !request.forced,
        0 <= n < stages.len(),
    ensures
        !(stages[n] matches CreateOperation::Loading(_, Load::CheckingForced { .. })),
        stages[n].asks(&level) matches Request::CheckKeyPermission { perm, .. } ==> perm
            == KeyPerm::Use,
    decreases n,
{
    law_creation_keeps_to_the_request(level, request, stages, replies, n);
    if n > 0 {
        law_force_is_asked_about_only_if_used(level, request, stages, replies, n - 1);
        law_creation_keeps_to_the_request(level, request, stages, replies, n - 1);
        let _ = replies[n - 1];
        assert(stages[n - 1].goes_to(level, replies[n - 1], stages[n]));
    }
}

} // verus!
