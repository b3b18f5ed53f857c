//! The dialogue of the creation of an operation: what is asked in turn, said of what the caller
//! asked for and of what was answered before.

use vstd::prelude::*;
use crate::create::{
    law_creation_keeps_to_the_request, law_creation_reflects_the_answers, CreateOperation, Gained,
    Operation, OperationRequest,
};
use crate::dialogue::{asks_runner, lemma_run_turn, run_turn, RunHeard};
use crate::level::KeystoreSecurityLevel;
use crate::lists::decides;
use crate::params::{is_first, lemma_first_value, purpose_of, without_tag};
use crate::request::{AlgorithmSource, LoadBits, Outcome, Reply, Request};
use crate::types::{
    model, BlobMetaData, Domain, Error, ErrorCode, KeyDescriptor, KeyPerm, KeyPurpose, LoadedKey,
    Param, ParamValue, ResponseCode, Tag,
};
use crate::upgrade::{Run, Target, Upgrade, Work};

verus! {

/// The first purpose among the parameters is this one.
pub open spec fn is_purpose(ps: Seq<Param>, purpose: KeyPurpose) -> bool {
    exists|i: int| #[trigger]
        decides(ps, i, Tag::Purpose) && ps[i].value == ParamValue::KeyPurpose(purpose)
}

/// What the caller gave besides the purpose.
pub open spec fn besides_purpose(request: OperationRequest) -> Seq<Param> {
    without_tag(model(request.params@), Tag::Purpose)
}

proof fn lemma_purpose(ps: Seq<Param>)
    ensures
        match purpose_of(ps) {
            Ok(purpose) => is_purpose(ps, purpose),
            Err(e) => e == Error::Km(ErrorCode::InvalidArgument) && forall|p: KeyPurpose|
                !is_purpose(ps, p),
        },
{
    lemma_first_value(ps, Tag::Purpose);
    if let Ok(purpose) = purpose_of(ps) {
        let i = choose|i: int| is_first(ps, Tag::Purpose, i);
        assert(is_first(ps, Tag::Purpose, i));
        assert(decides(ps, i, Tag::Purpose));
    } else {
        assert forall|p: KeyPurpose| !is_purpose(ps, p) by {
            if is_purpose(ps, p) {
                let i = choose|i: int| #[trigger]
                    decides(ps, i, Tag::Purpose) && ps[i].value == ParamValue::KeyPurpose(p);
                assert(is_first(ps, Tag::Purpose, i));
            }
        }
    }
}

/// The operation is asked to be authorized: with the purpose that the caller gave and the other
/// parameters, against the id and the parameters of the stored key, if it is one.
pub open spec fn asks_authorization(
    level: KeystoreSecurityLevel,
    asked: Request,
    request: OperationRequest,
    loaded: Option<LoadedKey>,
) -> bool {
    &&& asked matches Request::AuthorizeCreate {
        purpose,
        key_properties,
        params,
        timestamp_token_required,
    }
    &&& is_purpose(model(request.params@), purpose)
    &&& model(params@) == besides_purpose(request)
    &&& timestamp_token_required == level.hw_info.timestamp_token_required
    &&& match (key_properties, loaded) {
        (None, None) => request.key.domain == Domain::Blob,
        (Some((key_id, parameters)), Some(key)) => {
            &&& request.key.domain != Domain::Blob
            &&& key_id == key.key_id
            &&& *parameters == key.key_parameters
        },
        _ => false,
    }
}

/// What follows once the key is at hand: without a blob the creation ends with a system error,
/// without a purpose with an invalid argument, and else the operation is to be authorized.
pub open spec fn follows_the_key(
    level: KeystoreSecurityLevel,
    request: OperationRequest,
    has_blob: bool,
    loaded: Option<LoadedKey>,
    next: CreateOperation,
) -> bool {
    if !has_blob {
        next == CreateOperation::Done(Err(Error::Rc(ResponseCode::SystemError)))
    } else if forall|p: KeyPurpose| !is_purpose(model(request.params@), p) {
        next == CreateOperation::Done(Err(Error::Km(ErrorCode::InvalidArgument)))
    } else {
        asks_authorization(level, next.asks(&level), request, loaded)
    }
}

/// The caller is asked for this permission on this key.
pub open spec fn asks_permission(
    asked: Request,
    perm: KeyPerm,
    key: KeyDescriptor,
    access: Option<i32>,
) -> bool {
    asked == (Request::CheckKeyPermission { perm, key: &key, access })
}

/// The database is asked for the key that the caller named.
pub open spec fn asks_for_key(asked: Request, request: OperationRequest) -> bool {
    asked == (Request::LoadKeyEntry {
        import_as: &request.key,
        key: &request.key,
        caller: request.caller,
        bits: LoadBits::Both,
    })
}

impl CreateOperation {
    /// What was heard of the run in the first `n` steps.
    pub open spec fn run_heard_in(
        level: KeystoreSecurityLevel,
        stages: Seq<CreateOperation>,
        replies: Seq<Reply>,
        n: int,
    ) -> RunHeard
        decreases n,
    {
        if n <= 0 {
            RunHeard::nothing()
        } else {
            CreateOperation::run_heard_in(level, stages, replies, n - 1).heard(
                true,
                stages[n - 1].asks(&level),
                replies[n - 1],
            )
        }
    }

    /// Where the run of the beginning stands at this stage, if it is under way or just over.
    pub open spec fn begun_run(self) -> Upgrade {
        match self {
            CreateOperation::Beginning { run, .. } => run,
            CreateOperation::Finalizing { begun, upgraded_blob, .. } => Upgrade::Done(
                Ok((Outcome::Begun(begun), upgraded_blob)),
            ),
            CreateOperation::Done(Err(e)) => Upgrade::Done(Err(e)),
            _ => arbitrary(),
        }
    }
}

/// The work that the device is to do for this request, with this operation's parameters.
pub open spec fn is_work_for(
    work: Work,
    request: OperationRequest,
    g: Gained,
) -> bool {
    &&& work matches Work::Begin { purpose, params, auth_token, uid, forced, key_id }
    &&& is_purpose(model(request.params@), purpose)
    &&& model(params@) == besides_purpose(request)
    &&& g.authorized matches Some((token, _)) && auth_token == token
    &&& uid == request.caller.uid
    &&& forced == request.forced
    &&& key_id == match g.loaded {
        Some(key) if request.key.domain != Domain::Blob => Some(key.key_id),
        _ => None,
    }
}

/// The run of the beginning: on the blob in the clear, and an upgraded blob is for the stored key,
/// if there is one.
pub open spec fn is_run_for(run: Run, request: OperationRequest, g: Gained) -> bool {
    &&& g.unwrapped == Some(run.key_blob)
    &&& run.target matches Target::Stored { key_id, km_uuid }
    &&& if request.key.domain == Domain::Blob {
        key_id is None && km_uuid is None
    } else {
        &&& g.loaded matches Some(key)
        &&& key_id == Some(key.key_id)
        &&& key.blob_info matches Some((_, metadata))
        &&& km_uuid == metadata.km_uuid
    }
}

spec fn run_of(operation: Operation, g: Gained) -> Run {
    Run {
        key_blob: g.unwrapped->0,
        target: Target::Stored {
            key_id: operation.key_id(),
            km_uuid: operation.blob_metadata.km_uuid,
        },
    }
}

/// What holds of the run at every stage.
spec fn hears_run(stage: CreateOperation, g: Gained, h: RunHeard) -> bool {
    match stage {
        CreateOperation::CheckingUse(_)
        | CreateOperation::CheckingForced(_)
        | CreateOperation::Loading(_, _)
        | CreateOperation::Authorizing(_, _)
        | CreateOperation::Unwrapping { .. } => h == RunHeard::nothing(),
        CreateOperation::Beginning { operation, auth_token, run, .. } => h.holds(
            operation.work(auth_token),
            run_of(operation, g),
            run,
        ),
        _ => true,
    }
}

proof fn lemma_hears_run(
    level: KeystoreSecurityLevel,
    request: OperationRequest,
    stages: Seq<CreateOperation>,
    replies: Seq<Reply>,
    n: int,
)
    requires
        CreateOperation::run(level, stages, replies),
        stages[0] == CreateOperation::of(request),
        0 <= n < stages.len(),
    ensures
        hears_run(
            stages[n],
            CreateOperation::gained_in(stages, replies, n),
            CreateOperation::run_heard_in(level, stages, replies, n),
        ),
    decreases n,
{
    if n > 0 {
        lemma_hears_run(level, request, stages, replies, n - 1);
        law_creation_reflects_the_answers(level, request, stages, replies, n - 1);
        let g = CreateOperation::gained_in(stages, replies, n - 1);
        let h = CreateOperation::run_heard_in(level, stages, replies, n - 1);
        let _ = replies[n - 1];
        assert(stages[n - 1].goes_to(level, replies[n - 1], stages[n]));
        lemma_hears_step(level, g, h, stages[n - 1], replies[n - 1], stages[n]);
    }
}

proof fn lemma_hears_step(
    level: KeystoreSecurityLevel,
    g: Gained,
    h: RunHeard,
    stage: CreateOperation,
    reply: Reply,
    next: CreateOperation,
)
    requires
        hears_run(stage, g, h),
        stage.goes_to(level, reply, next),
    ensures
        hears_run(
            next,
            stage.gains(reply, g),
            h.heard(true, stage.asks(&level), reply),
        ),
{
    match (stage, next) {
        (
            CreateOperation::Beginning { operation, auth_token, run, .. },
            CreateOperation::Beginning { run: again, .. },
        ) => {
            lemma_run_turn(
                level,
                operation.work(auth_token),
                run_of(operation, g),
                h,
                run,
                reply,
                again,
            );
        },
        _ => {},
    }
}

/// The creation of an operation, turn by turn, up to the work of the device. A caller that hands
/// over the key is asked for the permissions on it, and the key of any other is asked of the
/// database, which may want to know whether the caller has them. Then the operation is
/// authorized, and the blob is unwrapped with what was stored beside it.
pub proof fn law_creation_in_turn(
    level: KeystoreSecurityLevel,
    request: OperationRequest,
    stages: Seq<CreateOperation>,
    replies: Seq<Reply>,
    n: int,
)
    requires
        CreateOperation::run(level, stages, replies),
        stages[0] == CreateOperation::of(request),
        0 <= n < replies.len(),
        !(stages[n] is Beginning),
    ensures
        request.key.domain == Domain::Blob ==> asks_permission(
            stages[0].asks(&level),
            KeyPerm::Use,
            request.key,
            None,
        ),
        request.key.domain != Domain::Blob ==> asks_for_key(stages[0].asks(&level), request),
        ({
            let g = CreateOperation::gained_in(stages, replies, n);
            let next = stages[n + 1];
            let asked = next.asks(&level);
            let own = request.key.domain == Domain::Blob;
            match (stages[n].asks(&level), replies[n]) {
                (Request::CheckKeyPermission { perm, key, access }, Reply::Status(Ok(_))) => {
                    if perm == KeyPerm::Use && request.forced {
                        asks_permission(asked, KeyPerm::ReqForcedOp, *key, access)
                    } else if own {
                        follows_the_key(level, request, request.key.blob is Some, None, next)
                    } else {
                        asked matches Request::ReturnStatus(r) && r is Ok
                    }
                },
                (Request::CheckKeyPermission { .. }, Reply::Status(Err(e))) => if own {
                    next == CreateOperation::Done(Err(e))
                } else {
                    asked == Request::ReturnStatus(Err(e))
                },
                (Request::LoadKeyEntry { .. }, Reply::AccessCheck { key, access }) => {
                    asks_permission(asked, KeyPerm::Use, key, access)
                },
                (Request::ReturnStatus(_), Reply::Returned) => asks_for_key(asked, request),
                (Request::LoadKeyEntry { .. }, Reply::Loaded(Ok(loaded))) => follows_the_key(
                    level,
                    request,
                    loaded.blob_info is Some,
                    Some(loaded),
                    next,
                ),
                (Request::LoadKeyEntry { .. }, Reply::Loaded(Err(e))) => next
                    == CreateOperation::Done(Err(e)),
                (Request::AuthorizeCreate { .. }, Reply::Authorized(Ok(_))) => {
                    &&& asked matches Request::UnwrapKeyIfRequired { blob_metadata, blob }
                    &&& if own {
                        &&& request.key.blob == Some(*blob)
                        &&& blob_metadata == BlobMetaData { km_uuid: None, others: None }
                    } else {
                        &&& g.loaded matches Some(loaded)
                        &&& loaded.blob_info == Some((*blob, blob_metadata))
                    }
                },
                (Request::AuthorizeCreate { .. }, Reply::Authorized(Err(e))) => next
                    == CreateOperation::Done(Err(e)),
                (Request::UnwrapKeyIfRequired { .. }, Reply::Unwrapped(Ok(key_blob))) => {
                    &&& next matches CreateOperation::Beginning { operation, auth_token, run, .. }
                    &&& is_work_for(operation.work(auth_token), request, g)
                    &&& run matches Upgrade::Running(r)
                    &&& r.key_blob == key_blob
                    &&& asks_runner(level, asked, operation.work(auth_token), r)
                },
                (Request::UnwrapKeyIfRequired { .. }, Reply::Unwrapped(Err(e))) => next
                    == CreateOperation::Done(Err(e)),
                (Request::FinalizeCreateAuthorization { .. }, Reply::Challenge(_)) => {
                    asked matches Request::ParseAlgorithm(source) && match source {
                        AlgorithmSource::Stored(parameters) => !own && (g.loaded matches Some(
                            key,
                        ) && *parameters == key.key_parameters),
                        AlgorithmSource::Operation(params) => own && model(params@)
                            == besides_purpose(request),
                    }
                },
                (Request::ParseAlgorithm(_), Reply::AlgorithmCode(code)) => {
                    registers(level, request, g, code, next)
                },
                (Request::CreateOperation { .. }, Reply::Registered(registered)) => asked == (
                Request::OperationBinder { operation: registered }),
                (Request::OperationBinder { .. }, Reply::Interface(Ok(interface))) => {
                    &&& next matches CreateOperation::Done(Ok(response))
                    &&& response.operation == interface
                    &&& response.operation_challenge == g.challenge
                    &&& g.begun matches Some((begun, upgraded_blob))
                    &&& response.parameters is None <==> begun.params@.len() == 0
                    &&& begun.params@.len() > 0 ==> response.parameters == Some(begun.params)
                    &&& own ==> response.upgraded_blob == upgraded_blob
                    &&& !own ==> response.upgraded_blob is None
                },
                (Request::OperationBinder { .. }, Reply::Interface(Err(e))) => next
                    == CreateOperation::Done(Err(e)),
                _ => next == stages[n],
            }
        }),
{
    law_creation_keeps_to_the_request(level, request, stages, replies, n);
    law_creation_reflects_the_answers(level, request, stages, replies, n);
    law_creation_keeps_to_the_request(level, request, stages, replies, n + 1);
    law_creation_reflects_the_answers(level, request, stages, replies, n + 1);
    lemma_purpose(model(request.params@));
    assert(stages[n].goes_to(level, replies[n], stages[n + 1]));
}

/// What follows once the algorithm is known: the operation that the device began, if it did, takes
/// its place for this caller and under its authorization, and what it was is noted for the
/// records. A device that began none is a system error.
pub open spec fn registers(
    level: KeystoreSecurityLevel,
    request: OperationRequest,
    g: Gained,
    code: i32,
    next: CreateOperation,
) -> bool {
    match g.begun {
        Some((begun, upgraded_blob)) => match begun.operation {
            Some(handle) => {
                &&& next.asks(&level) matches Request::CreateOperation {
                    operation,
                    uid,
                    auth_info,
                    forced,
                    logging_info,
                }
                &&& operation == handle
                &&& uid == request.caller.uid
                &&& g.is_authorized_by(auth_info)
                &&& forced == request.forced
                &&& logging_info.security_level == level.security_level
                &&& is_purpose(model(request.params@), logging_info.purpose)
                &&& logging_info.algorithm == code
                &&& model(logging_info.op_params@) == besides_purpose(request)
                &&& logging_info.key_upgraded == upgraded_blob is Some
                &&& logging_info.key_attested == (request.key.domain != Domain::Blob && (
                g.loaded matches Some(key) && key.attested))
            },
            None => next == CreateOperation::Done(Err(Error::Rc(ResponseCode::SystemError))),
        },
        None => false,
    }
}

/// The work of the device in the creation of an operation: it is to begin with the purpose, the
/// other parameters and the token of this caller, on the blob of this key, and the dialogue is
/// that of a run. What is asked once the device has begun is the authorization for the challenge
/// that the device returned.
pub proof fn law_beginning_in_turn(
    level: KeystoreSecurityLevel,
    request: OperationRequest,
    stages: Seq<CreateOperation>,
    replies: Seq<Reply>,
    n: int,
)
    requires
        CreateOperation::run(level, stages, replies),
        stages[0] == CreateOperation::of(request),
        0 <= n < replies.len(),
        stages[n] is Beginning,
    ensures
        ({
            let g = CreateOperation::gained_in(stages, replies, n);
            let h = CreateOperation::run_heard_in(level, stages, replies, n);
            let next = stages[n + 1];
            exists|work: Work, run: Run|
                {
                    &&& is_work_for(work, request, g)
                    &&& is_run_for(run, request, g)
                    &&& stages[n].asks(&level) == stages[n].begun_run().asks(&level, work)
                    &&& #[trigger] h.holds(work, run, stages[n].begun_run())
                    &&& run_turn(
                        level,
                        work,
                        run,
                        h,
                        stages[n].begun_run(),
                        replies[n],
                        next.begun_run(),
                    )
                    &&& match next.begun_run() {
                        Upgrade::Done(Ok((Outcome::Begun(begun), _))) => {
                            &&& next.asks(&level) matches Request::FinalizeCreateAuthorization {
                                auth_info,
                                challenge,
                            }
                            &&& g.is_authorized_by(auth_info)
                            &&& challenge == begun.challenge
                        },
                        Upgrade::Done(Err(e)) => next == CreateOperation::Done(Err(e)),
                        under_way => next.asks(&level) == under_way.asks(&level, work),
                    }
                }
        }),
{
    law_creation_keeps_to_the_request(level, request, stages, replies, n);
    law_creation_reflects_the_answers(level, request, stages, replies, n);
    lemma_hears_run(level, request, stages, replies, n);
    lemma_purpose(model(request.params@));
    assert(stages[n].goes_to(level, replies[n], stages[n + 1]));
    let g = CreateOperation::gained_in(stages, replies, n);
    let h = CreateOperation::run_heard_in(level, stages, replies, n);
    let operation = stages[n]->Beginning_operation;
    let work = operation.work(stages[n]->Beginning_auth_token);
    let run = run_of(operation, g);
    let next = stages[n + 1].begun_run();
    assert(stages[n].begun_run().goes_to(level, work, replies[n], next));
    lemma_run_turn(level, work, run, h, stages[n].begun_run(), replies[n], next);
    assert(h.holds(work, run, stages[n].begun_run()));
}

/// Whenever an operation is to be authorized, it is so against the id and the parameters of the key
/// that the database handed out, whatever else that key is, and against none exactly where the
/// caller handed over the key itself.
pub proof fn law_operations_are_authorized_against_their_key(
    level: KeystoreSecurityLevel,
    request: OperationRequest,
    stages: Seq<CreateOperation>,
    replies: Seq<Reply>,
    n: int,
)
    requires
        CreateOperation::run(level, stages, replies),
        stages[0] == CreateOperation::of(request),
        0 <= n < stages.len(),
        stages[n].asks(&level) is AuthorizeCreate,
    ensures
        asks_authorization(
            level,
            stages[n].asks(&level),
            request,
            if request.key.domain == Domain::Blob {
                None
            } else {
                CreateOperation::gained_in(stages, replies, n).loaded
            },
        ),
{
    law_creation_keeps_to_the_request(level, request, stages, replies, n);
    law_creation_reflects_the_answers(level, request, stages, replies, n);
    lemma_purpose(model(request.params@));
}

} // verus!
