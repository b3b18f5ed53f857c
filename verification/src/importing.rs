//! The dialogue of the imports: what is asked in turn, said of the arguments of the caller and of
//! what was answered before.

use vstd::prelude::*;
use crate::admission::{admission_turn, counted, lemma_admission_turn, Admission};
use crate::dialogue::{asks_runner, lemma_run_turn, run_turn, RunHeard};
use crate::import::{ImportKey, ImportRequest};
use crate::laws::law_import_keeps_to_the_request;
use crate::level::{bound_to, KeystoreSecurityLevel};
use crate::lists::{is_secure_id, law_first_authenticator_of_a_kind_decides};
use crate::params::import_format_of;
use crate::request::{LoadBits, Outcome, Reply, Request};
use crate::required::{completion_turn, lemma_completion_turn, Completion};
use crate::store::StoreNewKey;
use crate::types::{
    model, AuthenticatorSpec, AuthenticatorType, Caller, Domain, Error, ErrorCode, KeyBlob,
    KeyDescriptor, KeyParameter, KeyPerm, LoadedKey, ResponseCode,
};
use crate::upgrade::{Run, Target, Upgrade, Work};
use crate::wrapped::{ImportWrappedKey, WrappedRequest};

verus! {

// ---------------------------------------------------------------------------------------
// Import
// ---------------------------------------------------------------------------------------
impl ImportKey {
    /// The number of keys that was counted in the first `n` steps.
    pub open spec fn count_in(
        level: KeystoreSecurityLevel,
        stages: Seq<ImportKey>,
        replies: Seq<Reply>,
        n: int,
    ) -> Option<i32>
        decreases n,
    {
        if n <= 0 {
            None
        } else {
            counted(
                ImportKey::count_in(level, stages, replies, n - 1),
                stages[n - 1].asks(&level),
                replies[n - 1],
            )
        }
    }

    /// What follows once the completion of the parameters stands here: a list that is done goes to
    /// the device, with the material of the caller and in the encoding of its algorithm, or is
    /// refused for want of one.
    pub open spec fn goes_on_with(
        self,
        level: KeystoreSecurityLevel,
        key: KeyDescriptor,
        key_data: Vec<u8>,
        completion: Completion,
    ) -> bool {
        match completion {
            Completion::Done(Ok(whole)) => match import_format_of(whole) {
                Ok(format) => {
                    &&& self.asks(&level) matches Request::ImportKey {
                        params,
                        format: f,
                        key_data: data,
                    }
                    &&& model(params@) == whole
                    &&& f == format
                    &&& *data == key_data
                },
                Err(e) => self == ImportKey::Done(Err(e)),
            },
            Completion::Done(Err(e)) => self == ImportKey::Done(Err(e)),
            _ => {
                &&& self matches ImportKey::Completing(_, completing)
                &&& completing@ == completion
                &&& self.asks(&level) == completion.asks(&key)
            },
        }
    }
}

spec fn import_request(
    caller: Caller,
    key: KeyDescriptor,
    flags: i32,
    key_data: Vec<u8>,
) -> ImportRequest {
    ImportRequest { caller, key: bound_to(key, caller.uid), flags, key_data }
}

proof fn lemma_import_counts(
    level: KeystoreSecurityLevel,
    request: ImportRequest,
    params: Vec<KeyParameter>,
    stages: Seq<ImportKey>,
    replies: Seq<Reply>,
    n: int,
)
    requires
        ImportKey::run(level, stages, replies),
        stages[0] == ImportKey::Admitting(request, params, Admission::of(request.key)),
        0 <= n < stages.len(),
    ensures
        stages[n] matches ImportKey::Admitting(r, p, admission) ==> r == request && p == params
            && admission.is_for(request.key, ImportKey::count_in(level, stages, replies, n)),
    decreases n,
{
    lemma_admission_turn(request.key, None, Admission::of(request.key), Reply::Returned);
    if n > 0 {
        lemma_import_counts(level, request, params, stages, replies, n - 1);
        let _ = replies[n - 1];
        assert(stages[n - 1].goes_to(level, replies[n - 1], stages[n]));
        if let ImportKey::Admitting(_, _, admission) = stages[n - 1] {
            lemma_admission_turn(
                request.key,
                ImportKey::count_in(level, stages, replies, n - 1),
                admission,
                replies[n - 1],
            );
        }
    }
}

/// An import, turn by turn, from its arguments. A name that cannot be one is refused at once. The
/// key is admitted, for the name that the caller means; the parameters are completed, for the
/// caller's uid; the device gets the completed list with the material of the caller, and what it
/// makes is stored under that name, for the caller's user and with the caller's flags.
pub proof fn law_import_in_turn(
    level: KeystoreSecurityLevel,
    caller: Caller,
    key: KeyDescriptor,
    params: Vec<KeyParameter>,
    flags: i32,
    key_data: Vec<u8>,
    stages: Seq<ImportKey>,
    replies: Seq<Reply>,
    n: int,
)
    requires
        ImportKey::run(level, stages, replies),
        stages[0].starts(caller, key, params, flags, key_data),
        0 <= n < replies.len(),
    ensures
        key.domain != Domain::Blob && key.alias is None ==> stages[n + 1] == ImportKey::Done(
            Err(Error::Km(ErrorCode::InvalidArgument)),
        ),
        key.domain == Domain::Blob || key.alias is Some ==> {
            let meant = bound_to(key, caller.uid);
            let ps = model(params@);
            let answers = ImportKey::answers(level, stages, replies, n);
            let stage = stages[n];
            let next = stages[n + 1];
            let reply = replies[n];
            &&& stages[0].asks(&level) == Request::LimitKeysPerUid
            &&& match stage {
                ImportKey::Admitting(_, _, admission) => {
                    let after = admission.after(reply);
                    &&& stage.asks(&level) == admission.asks(&meant)
                    &&& admission_turn(
                        meant,
                        ImportKey::count_in(level, stages, replies, n),
                        admission,
                        reply,
                        after,
                    )
                    &&& match after {
                        Admission::Done(Ok(_)) => next.goes_on_with(
                            level,
                            meant,
                            key_data,
                            Completion::of(caller.uid, ps),
                        ),
                        Admission::Done(Err(e)) => next == ImportKey::Done(Err(e)),
                        _ => next matches ImportKey::Admitting(_, _, a) && a == after,
                    }
                },
                ImportKey::Completing(_, completing) => {
                    let after = completing@.after(level, reply);
                    &&& stage.asks(&level) == completing@.asks(&meant)
                    &&& completion_turn(
                        level,
                        caller.uid,
                        ps,
                        meant,
                        answers.clock,
                        completing@,
                        reply,
                        after,
                    )
                    &&& next.goes_on_with(level, meant, key_data, after)
                },
                ImportKey::Importing(_, whole, _) => {
                    &&& answers.suffice(level, ps)
                    &&& model(whole@) == answers.whole(level, ps)
                    &&& match reply {
                        Reply::Created(Ok(created)) => {
                            &&& next matches ImportKey::Storing(store)
                            &&& store.starts(meant, created, caller.user, Some(flags))
                            &&& next.asks(&level) == store.asks(&level)
                        },
                        Reply::Created(Err(e)) => next == ImportKey::Done(Err(e)),
                        _ => next == stage,
                    }
                },
                ImportKey::Storing(store) => {
                    &&& stage.asks(&level) == store.asks(&level)
                    &&& match next {
                        ImportKey::Storing(s) => store.goes_to(level, reply, s),
                        ImportKey::Done(r) => store.goes_to(level, reply, StoreNewKey::Done(r)),
                        _ => false,
                    }
                },
                ImportKey::Done(_) => next == stage,
            }
        },
    decreases n,
{
    let meant = bound_to(key, caller.uid);
    let _ = replies[n];
    assert(stages[n].goes_to(level, replies[n], stages[n + 1]));
    if key.domain != Domain::Blob && key.alias is None {
        if n > 0 {
            law_import_in_turn(
                level,
                caller,
                key,
                params,
                flags,
                key_data,
                stages,
                replies,
                n - 1,
            );
        }
    } else {
        let request = import_request(caller, key, flags, key_data);
        law_import_keeps_to_the_request(level, request, params, stages, replies, n);
        lemma_import_counts(level, request, params, stages, replies, n);
        lemma_admission_turn(meant, None, Admission::of(meant), replies[n]);
        match stages[n] {
            ImportKey::Admitting(_, _, admission) => {
                lemma_admission_turn(
                    meant,
                    ImportKey::count_in(level, stages, replies, n),
                    admission,
                    replies[n],
                );
            },
            ImportKey::Completing(_, completing) => {
                lemma_completion_turn(
                    level,
                    caller.uid,
                    model(params@),
                    meant,
                    ImportKey::answers(level, stages, replies, n),
                    completing@,
                    replies[n],
                );
            },
            _ => {},
        }
    }
}

// ---------------------------------------------------------------------------------------
// Import of a wrapped key
// ---------------------------------------------------------------------------------------
/// What was heard in the import of a wrapped key.
pub struct WrappedHeard {
    pub count: Option<i32>,
    pub loaded: Option<LoadedKey>,
    pub unwrapped: Option<KeyBlob>,
    pub run: RunHeard,
}

impl WrappedHeard {
    /// Nothing was heard yet.
    pub open spec fn nothing() -> WrappedHeard {
        WrappedHeard { count: None, loaded: None, unwrapped: None, run: RunHeard::nothing() }
    }

    /// What was heard once this request got this reply.
    pub open spec fn heard(self, request: Request, reply: Reply) -> WrappedHeard {
        WrappedHeard {
            count: counted(self.count, request, reply),
            loaded: match (request, reply) {
                (Request::LoadKeyEntry { .. }, Reply::Loaded(Ok(loaded))) => Some(loaded),
                _ => self.loaded,
            },
            unwrapped: match (request, reply) {
                (Request::UnwrapKeyIfRequired { .. }, Reply::Unwrapped(Ok(blob))) => Some(blob),
                _ => self.unwrapped,
            },
            run: self.run.heard(false, request, reply),
        }
    }

    /// The run works on the blob of the wrapping key, and an upgraded one is stored for it.
    pub open spec fn is_run(self, run: Run) -> bool {
        &&& self.unwrapped == Some(run.key_blob)
        &&& self.loaded matches Some(loaded)
        &&& loaded.blob_info matches Some((_, metadata))
        &&& run.target matches Target::Stored { key_id, km_uuid }
        &&& key_id == Some(loaded.key_id)
        &&& km_uuid == metadata.km_uuid
    }
}

impl ImportWrappedKey {
    /// What was heard in the first `n` steps.
    pub open spec fn heard_in(
        level: KeystoreSecurityLevel,
        stages: Seq<ImportWrappedKey>,
        replies: Seq<Reply>,
        n: int,
    ) -> WrappedHeard
        decreases n,
    {
        if n <= 0 {
            WrappedHeard::nothing()
        } else {
            ImportWrappedKey::heard_in(level, stages, replies, n - 1).heard(
                stages[n - 1].asks(&level),
                replies[n - 1],
            )
        }
    }
}

spec fn run_of(h: WrappedHeard) -> Run {
    Run {
        key_blob: h.unwrapped->0,
        target: Target::Stored {
            key_id: Some(h.loaded->0.key_id),
            km_uuid: match h.loaded->0.blob_info {
                Some((_, metadata)) => metadata.km_uuid,
                None => None,
            },
        },
    }
}

/// What holds at every stage.
spec fn wrapped_holds(request: WrappedRequest, stage: ImportWrappedKey, h: WrappedHeard) -> bool {
    match stage {
        ImportWrappedKey::Admitting(r, admission) => {
            r == request && admission.is_for(request.key, h.count) && h.run == RunHeard::nothing()
        },
        ImportWrappedKey::Loading(r, load) => {
            r == request && h.run == RunHeard::nothing() && !(load is CheckingForced)
        },
        ImportWrappedKey::Unwrapping { request: r, key_id, blob, blob_metadata } => {
            &&& r == request
            &&& h.run == RunHeard::nothing()
            &&& h.loaded matches Some(loaded)
            &&& loaded.key_id == key_id
            &&& loaded.blob_info == Some((blob, blob_metadata))
        },
        ImportWrappedKey::Importing(r, run) => {
            &&& r == request
            &&& h.is_run(run_of(h))
            &&& h.run.holds(request.work(), run_of(h), run)
        },
        _ => true,
    }
}

proof fn lemma_wrapped_holds_step(
    level: KeystoreSecurityLevel,
    request: WrappedRequest,
    stage: ImportWrappedKey,
    h: WrappedHeard,
    reply: Reply,
    next: ImportWrappedKey,
)
    requires
        wrapped_holds(request, stage, h),
        stage.goes_to(level, reply, next),
    ensures
        wrapped_holds(request, next, h.heard(stage.asks(&level), reply)),
{
    match (stage, next) {
        (ImportWrappedKey::Admitting(_, admission), _) => {
            lemma_admission_turn(request.key, h.count, admission, reply);
        },
        (ImportWrappedKey::Importing(_, run), ImportWrappedKey::Importing(_, again)) => {
            lemma_run_turn(level, request.work(), run_of(h), h.run, run, reply, again);
        },
        _ => {},
    }
}

proof fn lemma_wrapped_holds(
    level: KeystoreSecurityLevel,
    request: WrappedRequest,
    stages: Seq<ImportWrappedKey>,
    replies: Seq<Reply>,
    n: int,
)
    requires
        ImportWrappedKey::run(level, stages, replies),
        stages[0] == ImportWrappedKey::Admitting(request, Admission::of(request.key)),
        0 <= n < stages.len(),
    ensures
        wrapped_holds(
            request,
            stages[n],
            ImportWrappedKey::heard_in(level, stages, replies, n),
        ),
    decreases n,
{
    lemma_admission_turn(request.key, None, Admission::of(request.key), Reply::Returned);
    if n > 0 {
        lemma_wrapped_holds(level, request, stages, replies, n - 1);
        let _ = replies[n - 1];
        assert(stages[n - 1].goes_to(level, replies[n - 1], stages[n]));
        lemma_wrapped_holds_step(
            level,
            request,
            stages[n - 1],
            ImportWrappedKey::heard_in(level, stages, replies, n - 1),
            replies[n - 1],
            stages[n],
        );
    }
}

/// The descriptor names a new key of an app or of the system and carries its material.
pub open spec fn can_be_unwrapped(key: KeyDescriptor, wrapping_key: KeyDescriptor) -> bool {
    &&& key.domain == Domain::App || key.domain == Domain::SeLinux
    &&& key.alias is Some
    &&& key.blob is Some
    &&& wrapping_key.domain != Domain::Blob
}

/// The name of the key that is to be unwrapped: a key of an app is one of the caller's own, and the
/// material is no part of the name.
pub open spec fn is_unwrapped_name(
    name: KeyDescriptor,
    key: KeyDescriptor,
    caller: Caller,
) -> bool {
    &&& name.domain == key.domain
    &&& name.alias == key.alias
    &&& name.blob is None
    &&& key.domain == Domain::App ==> name.nspace == caller.uid.0
    &&& key.domain != Domain::App ==> name.nspace == key.nspace
}

/// The work that the device is to do for these arguments: the material of the caller, the masking
/// key that it gave or else 32 zeroes, its parameters, and the ids of its first password and of
/// its first fingerprint, each by itself and -1 where there is none.
pub open spec fn is_work_for(
    work: Work,
    key: KeyDescriptor,
    masking_key: Option<Vec<u8>>,
    params: Vec<KeyParameter>,
    authenticators: Seq<AuthenticatorSpec>,
) -> bool {
    &&& work matches Work::ImportWrapped {
        wrapped_data,
        masking_key: mask,
        params: p,
        password_sid,
        fingerprint_sid,
    }
    &&& key.blob == Some(*wrapped_data)
    &&& match masking_key {
        Some(given) => mask@ == given@,
        None => mask@.len() == 32 && forall|i: int| 0 <= i < 32 ==> #[trigger] mask@[i] == 0,
    }
    &&& *p == params
    &&& is_secure_id(authenticators, AuthenticatorType::Password, password_sid)
    &&& is_secure_id(authenticators, AuthenticatorType::Fingerprint, fingerprint_sid)
}

/// The import of a wrapped key, turn by turn, from its arguments. What cannot be unwrapped is
/// refused at once. The key is admitted, for the name that the caller means; the wrapping key is
/// asked of the database, which may want to know whether the caller may use it; its blob is
/// unwrapped with what was stored beside it; the device works on it as in any run; and what it
/// makes is stored under the new name, for the caller's user and without flags.
pub proof fn law_wrapped_import_in_turn(
    level: KeystoreSecurityLevel,
    caller: Caller,
    key: KeyDescriptor,
    wrapping_key: KeyDescriptor,
    masking_key: Option<Vec<u8>>,
    params: Vec<KeyParameter>,
    authenticators: Seq<AuthenticatorSpec>,
    name: KeyDescriptor,
    stages: Seq<ImportWrappedKey>,
    replies: Seq<Reply>,
    n: int,
)
    requires
        ImportWrappedKey::run(level, stages, replies),
        stages[0].starts(caller, key, wrapping_key, masking_key, params, authenticators),
        is_unwrapped_name(name, key, caller),
        0 <= n < replies.len(),
    ensures
        !can_be_unwrapped(key, wrapping_key) ==> stages[n + 1] == ImportWrappedKey::Done(
            Err(Error::Km(ErrorCode::InvalidArgument)),
        ),
        can_be_unwrapped(key, wrapping_key) ==> {
            let h = ImportWrappedKey::heard_in(level, stages, replies, n);
            let stage = stages[n];
            let next = stages[n + 1];
            let reply = replies[n];
            let asked = next.asks(&level);
            &&& stages[0].asks(&level) == Request::LimitKeysPerUid
            &&& match stage {
                ImportWrappedKey::Admitting(_, admission) => {
                    let after = admission.after(reply);
                    &&& stage.asks(&level) == admission.asks(&name)
                    &&& admission_turn(name, h.count, admission, reply, after)
                    &&& match after {
                        Admission::Done(Ok(_)) => asks_for_wrapping_key(
                            asked,
                            name,
                            wrapping_key,
                            caller,
                        ),
                        Admission::Done(Err(e)) => next == ImportWrappedKey::Done(Err(e)),
                        _ => next matches ImportWrappedKey::Admitting(_, a) && a == after,
                    }
                },
                ImportWrappedKey::Loading(_, _) => match (stage.asks(&level), reply) {
                    (Request::LoadKeyEntry { .. }, Reply::AccessCheck { key: k, access }) => asked
                        == (Request::CheckKeyPermission { perm: KeyPerm::Use, key: &k, access }),
                    (Request::CheckKeyPermission { .. }, Reply::Status(r)) => {
                        asked matches Request::ReturnStatus(told) && (told is Ok <==> r is Ok) && (
                        r is Err ==> told == r)
                    },
                    (Request::ReturnStatus(_), Reply::Returned) => asks_for_wrapping_key(
                        asked,
                        name,
                        wrapping_key,
                        caller,
                    ),
                    (Request::LoadKeyEntry { .. }, Reply::Loaded(Ok(loaded))) => {
                        match loaded.blob_info {
                            Some((blob, blob_metadata)) => asked == (
                            Request::UnwrapKeyIfRequired { blob_metadata, blob: &blob }),
                            None => next == ImportWrappedKey::Done(
                                Err(Error::Rc(ResponseCode::SystemError)),
                            ),
                        }
                    },
                    (Request::LoadKeyEntry { .. }, Reply::Loaded(Err(e))) => next
                        == ImportWrappedKey::Done(Err(e)),
                    _ => next == stage,
                },
                ImportWrappedKey::Unwrapping { .. } => match reply {
                    Reply::Unwrapped(Ok(key_blob)) => {
                        &&& next matches ImportWrappedKey::Importing(request, Upgrade::Running(run))
                        &&& is_work_for(request.work(), key, masking_key, params, authenticators)
                        &&& run.key_blob == key_blob
                        &&& asks_runner(level, asked, request.work(), run)
                    },
                    Reply::Unwrapped(Err(e)) => next == ImportWrappedKey::Done(Err(e)),
                    _ => next == stage,
                },
                ImportWrappedKey::Importing(request, run) => {
                    let after = next.imported_run(run, level, request.work(), reply);
                    &&& is_work_for(request.work(), key, masking_key, params, authenticators)
                    &&& stage.asks(&level) == run.asks(&level, request.work())
                    &&& exists|r: Run|
                        h.is_run(r) && h.run.holds(request.work(), r, run) && #[trigger] run_turn(
                            level,
                            request.work(),
                            r,
                            h.run,
                            run,
                            reply,
                            after,
                        )
                    &&& match after {
                        Upgrade::Done(Ok((Outcome::Created(created), _))) => {
                            &&& next matches ImportWrappedKey::Storing(store)
                            &&& store.starts(name, created, caller.user, None)
                            &&& asked == store.asks(&level)
                        },
                        Upgrade::Done(Err(e)) => next == ImportWrappedKey::Done(Err(e)),
                        under_way => asked == under_way.asks(&level, request.work()),
                    }
                },
                ImportWrappedKey::Storing(store) => {
                    &&& stage.asks(&level) == store.asks(&level)
                    &&& match next {
                        ImportWrappedKey::Storing(s) => store.goes_to(level, reply, s),
                        ImportWrappedKey::Done(r) => store.goes_to(
                            level,
                            reply,
                            StoreNewKey::Done(r),
                        ),
                        _ => false,
                    }
                },
                ImportWrappedKey::Done(_) => next == stage,
            }
        },
    decreases n,
{
    let _ = replies[n];
    assert(stages[n].goes_to(level, replies[n], stages[n + 1]));
    if !can_be_unwrapped(key, wrapping_key) {
        if n > 0 {
            law_wrapped_import_in_turn(
                level,
                caller,
                key,
                wrapping_key,
                masking_key,
                params,
                authenticators,
                name,
                stages,
                replies,
                n - 1,
            );
        }
    } else {
        let request = stages[0]->Admitting_0;
        let h = ImportWrappedKey::heard_in(level, stages, replies, n);
        assert(request.key == name);
        law_first_authenticator_of_a_kind_decides(authenticators, AuthenticatorType::Password);
        law_first_authenticator_of_a_kind_decides(authenticators, AuthenticatorType::Fingerprint);
        assert(is_work_for(request.work(), key, masking_key, params, authenticators));
        lemma_wrapped_holds(level, request, stages, replies, n);
        lemma_admission_turn(name, None, Admission::of(name), replies[n]);
        match stages[n] {
            ImportWrappedKey::Admitting(_, admission) => {
                lemma_admission_turn(name, h.count, admission, replies[n]);
            },
            ImportWrappedKey::Importing(_, run) => {
                let after = stages[n + 1].imported_run(run, level, request.work(), replies[n]);
                assert(run.goes_to(level, request.work(), replies[n], after));
                lemma_run_turn(level, request.work(), run_of(h), h.run, run, replies[n], after);
            },
            _ => {},
        }
    }
}

impl ImportWrappedKey {
    /// Where the run of the import stands here, if it is under way or just over: it was at `run`
    /// and got this reply.
    pub open spec fn imported_run(
        self,
        run: Upgrade,
        level: KeystoreSecurityLevel,
        work: Work,
        reply: Reply,
    ) -> Upgrade {
        match self {
            ImportWrappedKey::Importing(_, again) => again,
            ImportWrappedKey::Storing(_) => choose|u: Upgrade|
                (u matches Upgrade::Done(Ok(done)) && done.0 is Created) && #[trigger] run.goes_to(
                    level,
                    work,
                    reply,
                    u,
                ),
            ImportWrappedKey::Done(Err(e)) => Upgrade::Done(Err(e)),
            _ => arbitrary(),
        }
    }
}

/// The database is asked for the wrapping key, which the legacy store may hold under the new name.
pub open spec fn asks_for_wrapping_key(
    asked: Request,
    name: KeyDescriptor,
    wrapping_key: KeyDescriptor,
    caller: Caller,
) -> bool {
    asked == (Request::LoadKeyEntry {
        import_as: &name,
        key: &wrapping_key,
        caller,
        bits: LoadBits::Km,
    })
}

/// Whenever the device is asked to unwrap a key, it is asked for the material, the masking key, the
/// parameters and the secure ids that these arguments give.
pub proof fn law_device_unwraps_for_these_arguments(
    level: KeystoreSecurityLevel,
    caller: Caller,
    key: KeyDescriptor,
    wrapping_key: KeyDescriptor,
    masking_key: Option<Vec<u8>>,
    params: Vec<KeyParameter>,
    authenticators: Seq<AuthenticatorSpec>,
    stages: Seq<ImportWrappedKey>,
    replies: Seq<Reply>,
    n: int,
)
    requires
        ImportWrappedKey::run(level, stages, replies),
        stages[0].starts(caller, key, wrapping_key, masking_key, params, authenticators),
        0 <= n < stages.len(),
        stages[n].asks(&level) is ImportWrappedKey,
    ensures
        ({
            &&& stages[n].asks(&level) matches Request::ImportWrappedKey {
                wrapped_data,
                wrapping_key_blob,
                masking_key: mask,
                params: p,
                password_sid,
                fingerprint_sid,
            }
            &&& key.blob == Some(*wrapped_data)
            &&& ImportWrappedKey::heard_in(level, stages, replies, n).run.called_on == Some(
                *wrapping_key_blob,
            )
            &&& match masking_key {
                Some(given) => mask@ == given@,
                None => mask@.len() == 32 && forall|i: int|
                    0 <= i < 32 ==> #[trigger] mask@[i] == 0,
            }
            &&& *p == params
            &&& is_secure_id(authenticators, AuthenticatorType::Password, password_sid)
            &&& is_secure_id(authenticators, AuthenticatorType::Fingerprint, fingerprint_sid)
        }),
    decreases n,
{
    if can_be_unwrapped(key, wrapping_key) {
        let request = stages[0]->Admitting_0;
        law_first_authenticator_of_a_kind_decides(authenticators, AuthenticatorType::Password);
        law_first_authenticator_of_a_kind_decides(authenticators, AuthenticatorType::Fingerprint);
        lemma_wrapped_holds(level, request, stages, replies, n);
    } else {
        lemma_refused_import(level, stages, replies, n);
    }
}

/// An import that is refused at once stays so.
proof fn lemma_refused_import(
    level: KeystoreSecurityLevel,
    stages: Seq<ImportWrappedKey>,
    replies: Seq<Reply>,
    n: int,
)
    requires
        ImportWrappedKey::run(level, stages, replies),
        stages[0] is Done,
        0 <= n < stages.len(),
    ensures
        stages[n] is Done,
    decreases n,
{
    if n > 0 {
        lemma_refused_import(level, stages, replies, n - 1);
        let _ = replies[n - 1];
        assert(stages[n - 1].goes_to(level, replies[n - 1], stages[n]));
    }
}

} // verus!
