//! What holds of every generation and every import of a key, whatever the services answer.

use vstd::prelude::*;
use crate::admission::Admission;
use crate::generate::{GenerateKey, KeyRequest, Making};
use crate::import::{ImportKey, ImportRequest};
use crate::level::{names_new_key, KeystoreSecurityLevel};
use crate::load::{hands_out, is_grant, is_refusal, tells_grant, tells_refusal, Load};
use crate::params::{has_tag, import_format_of, swapped_imeis};
use crate::request::{Outcome, Reply, Request};
use crate::required::{lemma_course, lemma_step_on_course, on_course, Answers};
use crate::retry::GenerateRetry;
use crate::store::{describes, lemma_store_step, StoreNewKey};
use crate::types::{
    model, AppUid, AttestationKeyInfo, AuthenticatorSpec, Caller, Certificate, Domain, Error,
    ErrorCode, KeyCharacteristics, KeyCreationResult, KeyDescriptor, KeyFormat, KeyMetadata,
    KeyParameter, KeyPerm, Param, Tag,
};
use crate::upgrade::{Attempt, Upgrade, Work};
use crate::wrapped::{created_or_failed, ImportWrappedKey, WrappedRequest};

verus! {

/// A key as it was made: its blob, its characteristics and its certificates.
pub struct KeyMaterial {
    pub key_blob: Vec<u8>,
    pub key_characteristics: Vec<KeyCharacteristics>,
    pub certificate_chain: Seq<Certificate>,
}

/// What a device, or whoever else made a key, returned for it.
pub open spec fn material(created: KeyCreationResult) -> KeyMaterial {
    KeyMaterial {
        key_blob: created.key_blob,
        key_characteristics: created.key_characteristics,
        certificate_chain: created.certificate_chain@,
    }
}

/// The storing is that of the key that was made, under this name, for this user and with these
/// flags.
pub open spec fn stores(
    level: KeystoreSecurityLevel,
    store: StoreNewKey,
    key: KeyDescriptor,
    made: Option<KeyMaterial>,
    caller: Caller,
    flags: Option<i32>,
) -> bool {
    exists|created: KeyCreationResult|
        made == Some(material(created)) && #[trigger] store.keeps_to(
            level,
            key,
            created,
            caller.user,
            flags,
        )
}

/// The metadata are those of the key that was made, under this name.
pub open spec fn tells_of(
    level: KeystoreSecurityLevel,
    metadata: KeyMetadata,
    key: KeyDescriptor,
    made: Option<KeyMaterial>,
) -> bool {
    exists|created: KeyCreationResult|
        made == Some(material(created)) && #[trigger] describes(level, metadata, key, created)
}

proof fn lemma_stores_step(
    level: KeystoreSecurityLevel,
    key: KeyDescriptor,
    made: Option<KeyMaterial>,
    caller: Caller,
    flags: Option<i32>,
    store: StoreNewKey,
    reply: Reply,
    next: StoreNewKey,
)
    requires
        stores(level, store, key, made, caller, flags),
        store.goes_to(level, reply, next),
    ensures
        stores(level, next, key, made, caller, flags),
        next matches StoreNewKey::Done(Ok(metadata)) ==> tells_of(level, metadata, key, made),
{
    let created = choose|created: KeyCreationResult|
        made == Some(material(created)) && #[trigger] store.keeps_to(
            level,
            key,
            created,
            caller.user,
            flags,
        );
    lemma_store_step(level, key, created, caller.user, flags, store, reply, next);
    if let StoreNewKey::Done(Ok(metadata)) = next {
        assert(describes(level, metadata, key, created));
    }
}

proof fn lemma_stores_start(
    level: KeystoreSecurityLevel,
    key: KeyDescriptor,
    created: KeyCreationResult,
    caller: Caller,
    flags: Option<i32>,
    store: StoreNewKey,
)
    requires
        store.starts(key, created, caller.user, flags),
    ensures
        stores(level, store, key, Some(material(created)), caller, flags),
{
    assert(store.keeps_to(level, key, created, caller.user, flags));
}

/// What was made once a run of work on a device got this reply.
pub open spec fn made_by_run(
    run: Upgrade,
    reply: Reply,
    before: Option<KeyMaterial>,
) -> Option<KeyMaterial> {
    match (run, reply) {
        (Upgrade::Running(_), Reply::UpgradeDone(Ok((Outcome::Created(created), _)))) => Some(
            material(created),
        ),
        _ => before,
    }
}

/// Where only the old blob is still to be written, the run holds the key that was made.
pub open spec fn holds_made(run: Upgrade, made: Option<KeyMaterial>) -> bool {
    &&& !created_or_failed(run)
    &&& run matches Upgrade::Reencrypting(_, done, _) ==> done.0 is Created && made == Some(
        material(done.0->Created_0),
    )
}

proof fn lemma_run_made(
    level: KeystoreSecurityLevel,
    work: Work,
    run: Upgrade,
    reply: Reply,
    next: Upgrade,
    before: Option<KeyMaterial>,
)
    requires
        holds_made(run, before),
        run.goes_to(level, work, reply, next),
        !(work is Begin),
    ensures
        !created_or_failed(next) ==> holds_made(next, made_by_run(run, reply, before)),
        next matches Upgrade::Done(Ok(done)) && done.0 is Created ==> made_by_run(
            run,
            reply,
            before,
        ) == Some(material(next->Done_0->Ok_0.0->Created_0)),
{
}

// ---------------------------------------------------------------------------------------
// Generation
// ---------------------------------------------------------------------------------------
impl GenerateKey {
    /// The generation went through these stages, with these replies between them.
    pub open spec fn run(
        level: KeystoreSecurityLevel,
        stages: Seq<GenerateKey>,
        replies: Seq<Reply>,
    ) -> bool {
        &&& stages.len() == replies.len() + 1
        &&& forall|i: int|
            #![trigger replies[i]]
            0 <= i < replies.len() ==> stages[i].goes_to(level, replies[i], stages[i + 1])
    }

    /// The request that the generation serves.
    pub open spec fn request(self) -> Option<KeyRequest> {
        match self {
            GenerateKey::Admitting(request, _, _) => Some(request),
            GenerateKey::Preferring(request, _) => Some(request),
            GenerateKey::FindingAttestKey(request, _) => Some(request),
            GenerateKey::Completing(request, _, _) => Some(request),
            GenerateKey::Tracking(request, _, _) => Some(request),
            GenerateKey::Comparing(request, _, _) => Some(request),
            GenerateKey::Choosing(making, _) => Some(making.request),
            GenerateKey::InSoftware(making, _) => Some(making.request),
            GenerateKey::FindingDevice(making, _, _) => Some(making.request),
            GenerateKey::Attesting { making, .. } => Some(making.request),
            GenerateKey::NamingComponent { making, .. } => Some(making.request),
            GenerateKey::Provisioned { making, .. } => Some(making.request),
            GenerateKey::AskingProcessor(made, _) => Some(made.request),
            GenerateKey::Processing(made, _) => Some(made.request),
            GenerateKey::Plain(making, _) => Some(making.request),
            GenerateKey::Overriding(made) => Some(made.request),
            GenerateKey::Syncing(made) => Some(made.request),
            GenerateKey::Marking(made) => Some(made.request),
            GenerateKey::Storing(_) => None,
            GenerateKey::Done(_) => None,
        }
    }

    /// What was made once this stage got this reply, where `before` was made so far. The
    /// certificates of a key may still change after a device made it: a provisioned key brings
    /// its own, the post-processor gives others, and so does an override.
    pub open spec fn makes(self, reply: Reply, before: Option<KeyMaterial>) -> Option<
        KeyMaterial,
    > {
        match (self, reply) {
            (GenerateKey::InSoftware(_, _), Reply::Software(Ok(Some(created)))) => Some(
                material(created),
            ),
            (GenerateKey::Plain(_, _), Reply::Created(Ok(created))) => Some(material(created)),
            (GenerateKey::Attesting { run, .. }, _)
            | (GenerateKey::Provisioned { run, .. }, _) => made_by_run(run, reply, before),
            (GenerateKey::AskingProcessor(_, certs), Reply::Decision(r)) => if r is Ok && r->Ok_0 {
                before
            } else {
                match before {
                    Some(m) => Some(
                        KeyMaterial {
                            certificate_chain: m.certificate_chain.push(
                                Certificate { encoded_certificate: certs },
                            ),
                            ..m
                        },
                    ),
                    None => None,
                }
            },
            (GenerateKey::Processing(_, _), Reply::Chain(chain)) => match before {
                Some(m) => Some(KeyMaterial { certificate_chain: chain@, ..m }),
                None => None,
            },
            (GenerateKey::Overriding(_), Reply::Revised(created)) => Some(material(created)),
            _ => before,
        }
    }

    /// The key that was made in the first `n` steps.
    pub open spec fn made_in(stages: Seq<GenerateKey>, replies: Seq<Reply>, n: int) -> Option<
        KeyMaterial,
    >
        decreases n,
    {
        if n <= 0 {
            None
        } else {
            stages[n - 1].makes(
                replies[n - 1],
                GenerateKey::made_in(stages, replies, n - 1),
            )
        }
    }

    /// What holds at every stage of the generation that this request asked for, where this key
    /// was made so far.
    pub open spec fn keeps_to(
        self,
        level: KeystoreSecurityLevel,
        request: KeyRequest,
        made: Option<KeyMaterial>,
    ) -> bool {
        match self {
            GenerateKey::Storing(store) => stores(
                level,
                store,
                request.key,
                made,
                request.caller,
                Some(request.flags),
            ),
            GenerateKey::Done(Ok(metadata)) => tells_of(level, metadata, request.key, made),
            GenerateKey::Done(Err(_)) => true,
            GenerateKey::Admitting(r, _, admission) => r == request && !(admission is Done),
            GenerateKey::Attesting { run, .. } | GenerateKey::Provisioned { run, .. } => {
                self.request() == Some(request) && holds_made(run, made)
            },
            GenerateKey::AskingProcessor(m, _)
            | GenerateKey::Processing(m, _)
            | GenerateKey::Overriding(m)
            | GenerateKey::Syncing(m)
            | GenerateKey::Marking(m) => m.request == request && made == Some(material(m.created)),
            GenerateKey::Plain(making, retry) => making.request == request && !(retry is Done),
            _ => self.request() == Some(request),
        }
    }

    /// The new key was admitted.
    pub open spec fn is_admitted(self) -> bool {
        match self {
            GenerateKey::Admitting(_, _, _) => false,
            GenerateKey::Done(Err(_)) => false,
            _ => true,
        }
    }

    /// The device is at its second attempt, without an attestation key or with a provisioned one.
    pub open spec fn is_second_attempt(self) -> bool {
        match self {
            GenerateKey::Plain(_, GenerateRetry::Second(_)) => true,
            GenerateKey::Provisioned {
                run: Upgrade::Attempting(_, Attempt::Retrying(_, GenerateRetry::Second(_))),
                ..
            } => true,
            _ => false,
        }
    }

    /// What the services answered for the completion of the parameters in the first `n` steps.
    pub open spec fn answers(
        level: KeystoreSecurityLevel,
        stages: Seq<GenerateKey>,
        replies: Seq<Reply>,
        n: int,
    ) -> Answers
        decreases n,
    {
        if n <= 0 {
            Answers::none()
        } else {
            GenerateKey::answers(level, stages, replies, n - 1).heard(
                stages[n - 1].asks(&level),
                replies[n - 1],
            )
        }
    }

    /// What holds of the parameters at every stage before the key is made.
    pub closed spec fn has_parameters(
        self,
        level: KeystoreSecurityLevel,
        uid: AppUid,
        ps: Seq<Param>,
        answers: Answers,
    ) -> bool {
        match self {
            GenerateKey::Admitting(request, params, _)
            | GenerateKey::Preferring(request, params)
            | GenerateKey::FindingAttestKey(request, params) => {
                request.caller.uid == uid && model(params@) == ps
            },
            GenerateKey::Completing(request, _, completing) => {
                request.caller.uid == uid && on_course(level, uid, ps, answers, completing@)
            },
            GenerateKey::Tracking(_, params, _) | GenerateKey::Comparing(_, params, _) => {
                is_whole(level, ps, answers, params)
            },
            GenerateKey::Choosing(making, _)
            | GenerateKey::InSoftware(making, _)
            | GenerateKey::FindingDevice(making, _, _)
            | GenerateKey::Attesting { making, .. }
            | GenerateKey::NamingComponent { making, .. } => is_whole(
                level,
                ps,
                answers,
                making.params,
            ),
            GenerateKey::Provisioned { making, run, .. } => {
                &&& is_whole(level, ps, answers, making.params)
                &&& run matches Upgrade::Attempting(_, Attempt::Retrying(_, retry))
                    ==> swaps_only(retry, making.params)
            },
            GenerateKey::Plain(making, retry) => {
                &&& is_whole(level, ps, answers, making.params)
                &&& swaps_only(retry, making.params)
            },
            _ => true,
        }
    }
}

/// These are the parameters of the caller, completed by what the services answered.
pub open spec fn is_whole(
    level: KeystoreSecurityLevel,
    ps: Seq<Param>,
    answers: Answers,
    whole: Vec<KeyParameter>,
) -> bool {
    &&& !has_tag(ps, Tag::CreationDatetime)
    &&& answers.suffice(level, ps)
    &&& model(whole@) == answers.whole(level, ps)
}

/// A second attempt has the parameters of the first, with the IMEIs exchanged.
pub open spec fn swaps_only(retry: GenerateRetry, params: Vec<KeyParameter>) -> bool {
    retry matches GenerateRetry::Second(swapped) ==> model(swapped@) == swapped_imeis(
        model(params@),
    )
}

/// One step of a generation keeps to the request and to the key that was made.
proof fn lemma_generate_step(
    level: KeystoreSecurityLevel,
    request: KeyRequest,
    made: Option<KeyMaterial>,
    stage: GenerateKey,
    reply: Reply,
    next: GenerateKey,
)
    requires
        stage.keeps_to(level, request, made),
        stage.goes_to(level, reply, next),
    ensures
        next.keeps_to(level, request, stage.makes(reply, made)),
{
    let flags = Some(request.flags);
    match (stage, next) {
        (GenerateKey::Storing(store), GenerateKey::Storing(s)) => {
            lemma_stores_step(level, request.key, made, request.caller, flags, store, reply, s);
        },
        (GenerateKey::Storing(store), GenerateKey::Done(r)) => {
            let s = StoreNewKey::Done(r);
            lemma_stores_step(level, request.key, made, request.caller, flags, store, reply, s);
        },
        (GenerateKey::Marking(m), GenerateKey::Storing(store)) => {
            lemma_stores_start(level, request.key, m.created, request.caller, flags, store);
        },
        (GenerateKey::Attesting { making, device, version, issuer_subject, run }, _) => {
            let work = making.attested_work(device, version, &issuer_subject);
            lemma_attesting_step(level, request, made, stage, work, run, reply, next);
        },
        (GenerateKey::Provisioned { making, issuer_subject, run, .. }, _) => {
            let work = making.provisioned_work(&issuer_subject);
            lemma_attesting_step(level, request, made, stage, work, run, reply, next);
        },
        _ => {},
    }
}

/// One step of a generation that an attestation key signs.
proof fn lemma_attesting_step(
    level: KeystoreSecurityLevel,
    request: KeyRequest,
    made: Option<KeyMaterial>,
    stage: GenerateKey,
    work: Work,
    run: Upgrade,
    reply: Reply,
    next: GenerateKey,
)
    requires
        stage.keeps_to(level, request, made),
        stage.goes_to(level, reply, next),
        match stage {
            GenerateKey::Attesting { making, device, version, issuer_subject, run: r } => {
                r == run && work == making.attested_work(device, version, &issuer_subject)
            },
            GenerateKey::Provisioned { making, issuer_subject, run: r, .. } => {
                r == run && work == making.provisioned_work(&issuer_subject)
            },
            _ => false,
        },
    ensures
        next.keeps_to(level, request, stage.makes(reply, made)),
{
    match next {
        GenerateKey::Attesting { run: again, .. } | GenerateKey::Provisioned { run: again, .. } => {
            lemma_run_made(level, work, run, reply, again, made);
        },
        GenerateKey::Overriding(m)
        | GenerateKey::Marking(m)
        | GenerateKey::AskingProcessor(m, _) => {
            let upgraded_blob = choose|upgraded_blob: Option<Vec<u8>>| #[trigger]
                run.goes_to(
                    level,
                    work,
                    reply,
                    Upgrade::Done(Ok((Outcome::Created(m.created), upgraded_blob))),
                );
            let done = Upgrade::Done(Ok((Outcome::Created(m.created), upgraded_blob)));
            lemma_run_made(level, work, run, reply, done, made);
        },
        _ => {},
    }
}

/// At no stage does a generation lose the request or the key that was made: the new key has the
/// name that the caller meant, what is stored and described is what was made in this run, and it
/// is stored for that caller's user and with the caller's flags.
pub proof fn law_generation_keeps_to_the_request(
    level: KeystoreSecurityLevel,
    request: KeyRequest,
    params: Vec<KeyParameter>,
    stages: Seq<GenerateKey>,
    replies: Seq<Reply>,
    n: int,
)
    requires
        GenerateKey::run(level, stages, replies),
        stages[0] == GenerateKey::Admitting(request, params, Admission::of(request.key)),
        0 <= n < stages.len(),
    ensures
        stages[n].keeps_to(level, request, GenerateKey::made_in(stages, replies, n)),
    decreases n,
{
    if n > 0 {
        law_generation_keeps_to_the_request(level, request, params, stages, replies, n - 1);
        let made = GenerateKey::made_in(stages, replies, n - 1);
        let _ = replies[n - 1];
        lemma_generate_step(level, request, made, stages[n - 1], replies[n - 1], stages[n]);
    }
}

/// The caller was asked for the permission to bind the name of this key, and has it.
pub open spec fn may_bind(request: Request, reply: Reply, key: KeyDescriptor) -> bool {
    &&& request == (Request::CheckKeyPermission {
        perm: KeyPerm::Rebind,
        key: &key,
        access: None,
    })
    &&& reply matches Reply::Status(r)
    &&& r is Ok
}

/// Nothing is asked about a new key, and no key is made or stored, before the caller was
/// granted the permission to bind its name.
pub proof fn law_generation_needs_the_permission_to_bind(
    level: KeystoreSecurityLevel,
    request: KeyRequest,
    params: Vec<KeyParameter>,
    stages: Seq<GenerateKey>,
    replies: Seq<Reply>,
    n: int,
)
    requires
        GenerateKey::run(level, stages, replies),
        stages[0] == GenerateKey::Admitting(request, params, Admission::of(request.key)),
        0 <= n < stages.len(),
        stages[n].is_admitted(),
    ensures
        exists|m: int|
            0 <= m < n && #[trigger] may_bind(stages[m].asks(&level), replies[m], request.key),
    decreases n,
{
    let _ = replies[n - 1];
    assert(stages[n - 1].goes_to(level, replies[n - 1], stages[n]));
    law_generation_keeps_to_the_request(level, request, params, stages, replies, n - 1);
    if stages[n - 1].is_admitted() {
        law_generation_needs_the_permission_to_bind(
            level,
            request,
            params,
            stages,
            replies,
            n - 1,
        );
    } else {
        assert(may_bind(stages[n - 1].asks(&level), replies[n - 1], request.key));
    }
}

proof fn lemma_parameters_step(
    level: KeystoreSecurityLevel,
    uid: AppUid,
    ps: Seq<Param>,
    answers: Answers,
    stage: GenerateKey,
    reply: Reply,
    next: GenerateKey,
)
    requires
        stage.has_parameters(level, uid, ps, answers),
        stage.goes_to(level, reply, next),
    ensures
        next.has_parameters(level, uid, ps, answers.heard(stage.asks(&level), reply)),
{
    let heard = answers.heard(stage.asks(&level), reply);
    lemma_course(level, uid, ps, heard);
    match stage {
        GenerateKey::Completing(request, _, completing) => {
            lemma_step_on_course(level, uid, ps, answers, completing@, request.key, reply);
        },
        _ => {},
    }
}

/// A new key is made from the whole list of its parameters: those of the caller, completed by
/// what the services answered in this run. In software it is made from just that list. So it is on
/// a device, but for a second attempt, which has the IMEIs exchanged; where the caller's own key
/// attests there is no second attempt.
pub proof fn law_device_gets_the_whole_list(
    level: KeystoreSecurityLevel,
    request: KeyRequest,
    params: Vec<KeyParameter>,
    stages: Seq<GenerateKey>,
    replies: Seq<Reply>,
    n: int,
)
    requires
        GenerateKey::run(level, stages, replies),
        stages[0] == GenerateKey::Admitting(request, params, Admission::of(request.key)),
        0 <= n < stages.len(),
    ensures
        stages[n].has_parameters(
            level,
            request.caller.uid,
            model(params@),
            GenerateKey::answers(level, stages, replies, n),
        ),
        stages[n].asks(&level) matches Request::GenerateKey { params: p, .. } ==> {
            let answers = GenerateKey::answers(level, stages, replies, n);
            let whole = answers.whole(level, model(params@));
            &&& !has_tag(model(params@), Tag::CreationDatetime)
            &&& answers.suffice(level, model(params@))
            &&& model(p@) == if stages[n].is_second_attempt() {
                swapped_imeis(whole)
            } else {
                whole
            }
        },
        stages[n].asks(&level) matches Request::GenerateSoftwareKey { params: p, .. } ==> is_whole(
            level,
            model(params@),
            GenerateKey::answers(level, stages, replies, n),
            *p,
        ),
    decreases n,
{
    let ps = model(params@);
    if n > 0 {
        law_device_gets_the_whole_list(level, request, params, stages, replies, n - 1);
        let _ = replies[n - 1];
        lemma_parameters_step(
            level,
            request.caller.uid,
            ps,
            GenerateKey::answers(level, stages, replies, n - 1),
            stages[n - 1],
            replies[n - 1],
            stages[n],
        );
    }
}

/// Where software generation was asked for and does not come about, the device makes the key as
/// if it had not been asked for.
pub proof fn law_software_generation_falls_back(
    level: KeystoreSecurityLevel,
    making: Making,
    info: Option<AttestationKeyInfo>,
    failure: Result<Option<KeyCreationResult>, Error>,
    asked: GenerateKey,
    fallen_back: GenerateKey,
    not_asked: GenerateKey,
)
    requires
        !(failure matches Ok(Some(_))),
        GenerateKey::Choosing(making, info).goes_to(level, Reply::Flag(true), asked),
        asked.goes_to(level, Reply::Software(failure), fallen_back),
        GenerateKey::Choosing(making, info).goes_to(level, Reply::Flag(false), not_asked),
    ensures
        fallen_back == not_asked,
{
}

/// A generation or an import without an alias, where one is needed, is refused at once; and a
/// key of an app is bound to its caller, whatever uid the descriptor named.
pub proof fn law_new_keys_are_the_callers_own(
    caller: Caller,
    key: KeyDescriptor,
    attest_key: Option<KeyDescriptor>,
    params: Vec<KeyParameter>,
    flags: i32,
    key_data: Vec<u8>,
    generation: GenerateKey,
    import: ImportKey,
)
    requires
        generation.starts(caller, key, attest_key, params, flags),
        import.starts(caller, key, params, flags, key_data),
    ensures
        !names_new_key(key) ==> {
            &&& generation == GenerateKey::Done(Err(Error::Km(ErrorCode::InvalidArgument)))
            &&& import == ImportKey::Done(Err(Error::Km(ErrorCode::InvalidArgument)))
        },
        names_new_key(key) && key.domain == Domain::App ==> {
            &&& generation.request() matches Some(request)
            &&& request.key.nspace == caller.uid.0
            &&& request.key.alias == key.alias
            &&& import matches ImportKey::Admitting(r, _, _)
            &&& r.key == request.key
        },
        names_new_key(key) && key.domain != Domain::App ==> {
            &&& generation.request() matches Some(request)
            &&& request.key == key
        },
{
}

// ---------------------------------------------------------------------------------------
// Import
// ---------------------------------------------------------------------------------------
impl ImportKey {
    /// The import went through these stages, with these replies between them.
    pub open spec fn run(
        level: KeystoreSecurityLevel,
        stages: Seq<ImportKey>,
        replies: Seq<Reply>,
    ) -> bool {
        &&& stages.len() == replies.len() + 1
        &&& forall|i: int|
            #![trigger replies[i]]
            0 <= i < replies.len() ==> stages[i].goes_to(level, replies[i], stages[i + 1])
    }

    /// What the services answered for the completion of the parameters in the first `n` steps.
    pub open spec fn answers(
        level: KeystoreSecurityLevel,
        stages: Seq<ImportKey>,
        replies: Seq<Reply>,
        n: int,
    ) -> Answers
        decreases n,
    {
        if n <= 0 {
            Answers::none()
        } else {
            ImportKey::answers(level, stages, replies, n - 1).heard(
                stages[n - 1].asks(&level),
                replies[n - 1],
            )
        }
    }

    /// The key that the device made in the first `n` steps.
    pub open spec fn made_in(stages: Seq<ImportKey>, replies: Seq<Reply>, n: int) -> Option<
        KeyMaterial,
    >
        decreases n,
    {
        if n <= 0 {
            None
        } else {
            match (stages[n - 1], replies[n - 1]) {
                (ImportKey::Importing(_, _, _), Reply::Created(Ok(created))) => Some(
                    material(created),
                ),
                _ => ImportKey::made_in(stages, replies, n - 1),
            }
        }
    }

    /// What holds at every stage of this import, where this key was made so far.
    pub open spec fn keeps_to(
        self,
        level: KeystoreSecurityLevel,
        request: ImportRequest,
        ps: Seq<Param>,
        answers: Answers,
        made: Option<KeyMaterial>,
    ) -> bool {
        match self {
            ImportKey::Admitting(r, params, admission) => {
                r == request && model(params@) == ps && !(admission is Done)
            },
            ImportKey::Completing(r, completing) => {
                r == request && on_course(level, request.caller.uid, ps, answers, completing@)
            },
            ImportKey::Importing(r, params, format) => {
                &&& r == request
                &&& is_whole(level, ps, answers, params)
                &&& import_format_of(model(params@)) == Ok::<KeyFormat, Error>(format)
            },
            ImportKey::Storing(store) => stores(
                level,
                store,
                request.key,
                made,
                request.caller,
                Some(request.flags),
            ),
            ImportKey::Done(Ok(metadata)) => tells_of(level, metadata, request.key, made),
            ImportKey::Done(Err(_)) => true,
        }
    }

    /// The new key was admitted.
    pub open spec fn is_admitted(self) -> bool {
        match self {
            ImportKey::Admitting(_, _, _) => false,
            ImportKey::Done(Err(_)) => false,
            _ => true,
        }
    }
}

proof fn lemma_import_step(
    level: KeystoreSecurityLevel,
    request: ImportRequest,
    ps: Seq<Param>,
    answers: Answers,
    before: Option<KeyMaterial>,
    stage: ImportKey,
    reply: Reply,
    next: ImportKey,
    made: Option<KeyMaterial>,
)
    requires
        stage.keeps_to(level, request, ps, answers, before),
        stage.goes_to(level, reply, next),
        made == match (stage, reply) {
            (ImportKey::Importing(_, _, _), Reply::Created(Ok(created))) => Some(material(created)),
            _ => before,
        },
    ensures
        next.keeps_to(level, request, ps, answers.heard(stage.asks(&level), reply), made),
{
    let heard = answers.heard(stage.asks(&level), reply);
    let flags = Some(request.flags);
    lemma_course(level, request.caller.uid, ps, heard);
    match (stage, next) {
        (ImportKey::Completing(_, completing), _) => {
            lemma_step_on_course(
                level,
                request.caller.uid,
                ps,
                answers,
                completing@,
                request.key,
                reply,
            );
        },
        (ImportKey::Importing(_, _, _), ImportKey::Storing(store)) => {
            let created = reply->Created_0->Ok_0;
            lemma_stores_start(level, request.key, created, request.caller, flags, store);
        },
        (ImportKey::Storing(store), ImportKey::Storing(s)) => {
            lemma_stores_step(level, request.key, made, request.caller, flags, store, reply, s);
        },
        (ImportKey::Storing(store), ImportKey::Done(r)) => {
            let s = StoreNewKey::Done(r);
            lemma_stores_step(level, request.key, made, request.caller, flags, store, reply, s);
        },
        _ => {},
    }
}

/// At no stage does an import lose the request or the key that was made: the device gets the
/// material as it was given, with the parameters as the services' answers complete them and the
/// encoding that goes with the algorithm, and what the device made of it is stored and described,
/// under the name that the caller meant.
pub proof fn law_import_keeps_to_the_request(
    level: KeystoreSecurityLevel,
    request: ImportRequest,
    params: Vec<KeyParameter>,
    stages: Seq<ImportKey>,
    replies: Seq<Reply>,
    n: int,
)
    requires
        ImportKey::run(level, stages, replies),
        stages[0] == ImportKey::Admitting(request, params, Admission::of(request.key)),
        0 <= n < stages.len(),
    ensures
        stages[n].keeps_to(
            level,
            request,
            model(params@),
            ImportKey::answers(level, stages, replies, n),
            ImportKey::made_in(stages, replies, n),
        ),
        stages[n].asks(&level) matches Request::ImportKey { params: p, format, key_data } ==> {
            &&& is_whole(
                level,
                model(params@),
                ImportKey::answers(level, stages, replies, n),
                *p,
            )
            &&& import_format_of(model(p@)) == Ok::<KeyFormat, Error>(format)
            &&& *key_data == request.key_data
        },
    decreases n,
{
    if n > 0 {
        law_import_keeps_to_the_request(level, request, params, stages, replies, n - 1);
        let _ = replies[n - 1];
        lemma_import_step(
            level,
            request,
            model(params@),
            ImportKey::answers(level, stages, replies, n - 1),
            ImportKey::made_in(stages, replies, n - 1),
            stages[n - 1],
            replies[n - 1],
            stages[n],
            ImportKey::made_in(stages, replies, n),
        );
    }
}

/// Nothing is asked about a new key, and no key is imported or stored, before the caller was
/// granted the permission to bind its name.
pub proof fn law_import_needs_the_permission_to_bind(
    level: KeystoreSecurityLevel,
    request: ImportRequest,
    params: Vec<KeyParameter>,
    stages: Seq<ImportKey>,
    replies: Seq<Reply>,
    n: int,
)
    requires
        ImportKey::run(level, stages, replies),
        stages[0] == ImportKey::Admitting(request, params, Admission::of(request.key)),
        0 <= n < stages.len(),
        stages[n].is_admitted(),
    ensures
        exists|m: int|
            0 <= m < n && #[trigger] may_bind(stages[m].asks(&level), replies[m], request.key),
    decreases n,
{
    let _ = replies[n - 1];
    assert(stages[n - 1].goes_to(level, replies[n - 1], stages[n]));
    law_import_keeps_to_the_request(level, request, params, stages, replies, n - 1);
    if stages[n - 1].is_admitted() {
        law_import_needs_the_permission_to_bind(level, request, params, stages, replies, n - 1);
    } else {
        assert(may_bind(stages[n - 1].asks(&level), replies[n - 1], request.key));
    }
}

// ---------------------------------------------------------------------------------------
// Import of a wrapped key
// ---------------------------------------------------------------------------------------
impl ImportWrappedKey {
    /// The import went through these stages, with these replies between them.
    pub open spec fn run(
        level: KeystoreSecurityLevel,
        stages: Seq<ImportWrappedKey>,
        replies: Seq<Reply>,
    ) -> bool {
        &&& stages.len() == replies.len() + 1
        &&& forall|i: int|
            #![trigger replies[i]]
            0 <= i < replies.len() ==> stages[i].goes_to(level, replies[i], stages[i + 1])
    }

    /// The key that the device made in the first `n` steps.
    pub open spec fn made_in(stages: Seq<ImportWrappedKey>, replies: Seq<Reply>, n: int) -> Option<
        KeyMaterial,
    >
        decreases n,
    {
        if n <= 0 {
            None
        } else {
            let before = ImportWrappedKey::made_in(stages, replies, n - 1);
            match stages[n - 1] {
                ImportWrappedKey::Importing(_, run) => made_by_run(run, replies[n - 1], before),
                _ => before,
            }
        }
    }

    /// What holds at every stage of this import, where this key was made so far.
    pub open spec fn keeps_to(
        self,
        level: KeystoreSecurityLevel,
        request: WrappedRequest,
        made: Option<KeyMaterial>,
    ) -> bool {
        match self {
            ImportWrappedKey::Admitting(r, admission) => r == request && !(admission is Done),
            ImportWrappedKey::Loading(r, _) => r == request,
            ImportWrappedKey::Unwrapping { request: r, .. } => r == request,
            ImportWrappedKey::Importing(r, run) => r == request && holds_made(run, made),
            ImportWrappedKey::Storing(store) => stores(
                level,
                store,
                request.key,
                made,
                request.caller,
                None,
            ),
            ImportWrappedKey::Done(Ok(metadata)) => tells_of(level, metadata, request.key, made),
            ImportWrappedKey::Done(Err(_)) => true,
        }
    }

    /// The new key was admitted.
    pub open spec fn is_admitted(self) -> bool {
        match self {
            ImportWrappedKey::Admitting(_, _) => false,
            ImportWrappedKey::Done(Err(_)) => false,
            _ => true,
        }
    }
}

proof fn lemma_wrapped_step(
    level: KeystoreSecurityLevel,
    request: WrappedRequest,
    before: Option<KeyMaterial>,
    stage: ImportWrappedKey,
    reply: Reply,
    next: ImportWrappedKey,
    made: Option<KeyMaterial>,
)
    requires
        stage.keeps_to(level, request, before),
        stage.goes_to(level, reply, next),
        made == match stage {
            ImportWrappedKey::Importing(_, run) => made_by_run(run, reply, before),
            _ => before,
        },
    ensures
        next.keeps_to(level, request, made),
{
    let work = request.work();
    match (stage, next) {
        (ImportWrappedKey::Importing(_, run), ImportWrappedKey::Importing(_, again)) => {
            lemma_run_made(level, work, run, reply, again, before);
        },
        (ImportWrappedKey::Importing(_, run), ImportWrappedKey::Storing(store)) => {
            let done = choose|done: (Outcome, Option<Vec<u8>>)|
                {
                    &&& done.0 is Created
                    &&& #[trigger] run.goes_to(level, work, reply, Upgrade::Done(Ok(done)))
                    &&& store.starts(request.key, done.0->Created_0, request.caller.user, None)
                };
            lemma_run_made(level, work, run, reply, Upgrade::Done(Ok(done)), before);
            lemma_stores_start(
                level,
                request.key,
                done.0->Created_0,
                request.caller,
                None,
                store,
            );
        },
        (ImportWrappedKey::Storing(store), ImportWrappedKey::Storing(s)) => {
            lemma_stores_step(level, request.key, made, request.caller, None, store, reply, s);
        },
        (ImportWrappedKey::Storing(store), ImportWrappedKey::Done(r)) => {
            let s = StoreNewKey::Done(r);
            lemma_stores_step(level, request.key, made, request.caller, None, store, reply, s);
        },
        _ => {},
    }
}

/// At no stage does the import of a wrapped key lose the request or the key that was made: the
/// device gets the wrapped material, the masking key, the parameters and the secure ids as they
/// were given, and what the device made of it is stored and described, under the name that the
/// caller meant.
pub proof fn law_wrapped_import_keeps_to_the_request(
    level: KeystoreSecurityLevel,
    request: WrappedRequest,
    stages: Seq<ImportWrappedKey>,
    replies: Seq<Reply>,
    n: int,
)
    requires
        ImportWrappedKey::run(level, stages, replies),
        stages[0] == ImportWrappedKey::Admitting(request, Admission::of(request.key)),
        0 <= n < stages.len(),
    ensures
        stages[n].keeps_to(level, request, ImportWrappedKey::made_in(stages, replies, n)),
        stages[n].asks(&level) matches Request::ImportWrappedKey {
            wrapped_data,
            masking_key,
            params,
            password_sid,
            fingerprint_sid,
            ..
        } ==> {
            &&& *wrapped_data == request.wrapped_data
            &&& *masking_key == request.masking_key
            &&& *params == request.params
            &&& password_sid == request.password_sid
            &&& fingerprint_sid == request.fingerprint_sid
        },
    decreases n,
{
    if n > 0 {
        law_wrapped_import_keeps_to_the_request(level, request, stages, replies, n - 1);
        let _ = replies[n - 1];
        lemma_wrapped_step(
            level,
            request,
            ImportWrappedKey::made_in(stages, replies, n - 1),
            stages[n - 1],
            replies[n - 1],
            stages[n],
            ImportWrappedKey::made_in(stages, replies, n),
        );
    }
}

/// The wrapping key is not looked up, and no key is imported or stored, before the caller was
/// granted the permission to bind the name of the new key.
pub proof fn law_wrapped_import_needs_the_permission_to_bind(
    level: KeystoreSecurityLevel,
    request: WrappedRequest,
    stages: Seq<ImportWrappedKey>,
    replies: Seq<Reply>,
    n: int,
)
    requires
        ImportWrappedKey::run(level, stages, replies),
        stages[0] == ImportWrappedKey::Admitting(request, Admission::of(request.key)),
        0 <= n < stages.len(),
        stages[n].is_admitted(),
    ensures
        exists|m: int|
            0 <= m < n && #[trigger] may_bind(stages[m].asks(&level), replies[m], request.key),
    decreases n,
{
    let _ = replies[n - 1];
    assert(stages[n - 1].goes_to(level, replies[n - 1], stages[n]));
    law_wrapped_import_keeps_to_the_request(level, request, stages, replies, n - 1);
    if stages[n - 1].is_admitted() {
        law_wrapped_import_needs_the_permission_to_bind(level, request, stages, replies, n - 1);
    } else {
        assert(may_bind(stages[n - 1].asks(&level), replies[n - 1], request.key));
    }
}

impl ImportWrappedKey {
    /// The database heeds what it is told: once it was told that the caller may not have the
    /// wrapping key, it does not hand it out.
    pub open spec fn database_heeds(
        level: KeystoreSecurityLevel,
        stages: Seq<ImportWrappedKey>,
        replies: Seq<Reply>,
    ) -> bool {
        forall|i: int, j: int|
            #![trigger replies[i], replies[j]]
            0 <= i < j < replies.len() && tells_refusal(stages[i].asks(&level), replies[i])
                ==> !hands_out(stages[j].asks(&level), replies[j])
    }

    /// The database asks first: it hands out a key only after it was told that the caller may
    /// have it.
    pub open spec fn database_asks_first(
        level: KeystoreSecurityLevel,
        stages: Seq<ImportWrappedKey>,
        replies: Seq<Reply>,
    ) -> bool {
        forall|j: int|
            #![trigger replies[j]]
            0 <= j < replies.len() && hands_out(stages[j].asks(&level), replies[j])
                ==> ImportWrappedKey::was_told_grant(level, stages, replies, j)
    }

    /// In the first `n` steps the database was told that the caller may have the wrapping key.
    pub open spec fn was_told_grant(
        level: KeystoreSecurityLevel,
        stages: Seq<ImportWrappedKey>,
        replies: Seq<Reply>,
        n: int,
    ) -> bool {
        exists|i: int| 0 <= i < n && #[trigger] tells_grant(stages[i].asks(&level), replies[i])
    }

    /// In the first `n` steps the caller was granted this permission.
    pub open spec fn was_granted(
        level: KeystoreSecurityLevel,
        stages: Seq<ImportWrappedKey>,
        replies: Seq<Reply>,
        n: int,
        perm: KeyPerm,
    ) -> bool {
        exists|i: int|
            0 <= i < n && #[trigger] is_grant(stages[i].asks(&level), replies[i], perm)
    }

    /// In the first `n` steps the database was told that the caller may not have the wrapping
    /// key.
    spec fn was_told_refusal(
        level: KeystoreSecurityLevel,
        stages: Seq<ImportWrappedKey>,
        replies: Seq<Reply>,
        n: int,
    ) -> bool {
        exists|i: int| 0 <= i < n && #[trigger] tells_refusal(stages[i].asks(&level), replies[i])
    }

    /// The wrapping key is at hand, or the import is over.
    spec fn is_past_key(self) -> bool {
        !(self is Admitting || self is Loading)
    }
}

proof fn lemma_wrapping_key_stays_at_hand(
    level: KeystoreSecurityLevel,
    stages: Seq<ImportWrappedKey>,
    replies: Seq<Reply>,
    n: int,
    m: int,
)
    requires
        ImportWrappedKey::run(level, stages, replies),
        0 <= n <= m < stages.len(),
        stages[n].is_past_key(),
    ensures
        stages[m].is_past_key(),
    decreases m,
{
    if n < m {
        lemma_wrapping_key_stays_at_hand(level, stages, replies, n, m - 1);
        let _ = replies[m - 1];
        assert(stages[m - 1].goes_to(level, replies[m - 1], stages[m]));
    }
}

/// What a refusal at step `m` leads to, as long as the database heeds it.
proof fn lemma_wrapped_refused(
    level: KeystoreSecurityLevel,
    stages: Seq<ImportWrappedKey>,
    replies: Seq<Reply>,
    m: int,
    n: int,
)
    requires
        ImportWrappedKey::run(level, stages, replies),
        ImportWrappedKey::database_heeds(level, stages, replies),
        0 <= m < replies.len(),
        is_refusal(stages[m].asks(&level), replies[m]),
        m < n < stages.len(),
    ensures
        match stages[n] {
            ImportWrappedKey::Done(Err(_)) => true,
            ImportWrappedKey::Loading(_, Load::Verdict(Err(_))) => true,
            ImportWrappedKey::Loading(_, _) => ImportWrappedKey::was_told_refusal(
                level,
                stages,
                replies,
                n,
            ),
            _ => false,
        },
    decreases n,
{
    let reply = replies[n - 1];
    assert(stages[n - 1].goes_to(level, reply, stages[n]));
    if m < n - 1 {
        lemma_wrapped_refused(level, stages, replies, m, n - 1);
        if let ImportWrappedKey::Loading(_, Load::Verdict(Err(_))) = stages[n - 1] {
            if reply is Returned {
                assert(tells_refusal(stages[n - 1].asks(&level), replies[n - 1]));
            }
        } else if stages[n - 1] is Loading {
            let i = choose|i: int|
                0 <= i < n - 1 && #[trigger] tells_refusal(stages[i].asks(&level), replies[i]);
            let _ = replies[i];
            assert(!hands_out(stages[n - 1].asks(&level), replies[n - 1]));
            assert(tells_refusal(stages[i].asks(&level), replies[i]));
        }
    } else {
        lemma_only_these_check(level, stages[m]);
    }
}

/// Only the stages before the wrapping key is at hand ask for a permission.
proof fn lemma_only_these_check(level: KeystoreSecurityLevel, stage: ImportWrappedKey)
    ensures
        stage.asks(&level) is CheckKeyPermission ==> !stage.is_past_key(),
{
}

/// Where the caller is refused a permission, on the new key or on the wrapping key, and the
/// database does not hand out a key of which it was told so, the device never imports, no new key
/// is stored, and the import does not succeed.
pub proof fn law_refused_wrapped_import_does_not_reach_the_device(
    level: KeystoreSecurityLevel,
    stages: Seq<ImportWrappedKey>,
    replies: Seq<Reply>,
    m: int,
    n: int,
)
    requires
        ImportWrappedKey::run(level, stages, replies),
        ImportWrappedKey::database_heeds(level, stages, replies),
        0 <= m < replies.len(),
        is_refusal(stages[m].asks(&level), replies[m]),
        0 <= n < stages.len(),
    ensures
        !(stages[n].asks(&level) is ImportWrappedKey),
        !(stages[n].asks(&level) is StoreNewKey),
        stages[n] matches ImportWrappedKey::Done(r) ==> r is Err,
{
    if m < n {
        lemma_wrapped_refused(level, stages, replies, m, n);
    } else {
        lemma_only_these_check(level, stages[m]);
        if stages[n].is_past_key() {
            lemma_wrapping_key_stays_at_hand(level, stages, replies, n, m);
        }
    }
}

/// What was granted on the way to each stage of the import of a wrapped key.
proof fn lemma_wrapping_key_granted(
    level: KeystoreSecurityLevel,
    request: WrappedRequest,
    stages: Seq<ImportWrappedKey>,
    replies: Seq<Reply>,
    n: int,
)
    requires
        ImportWrappedKey::run(level, stages, replies),
        ImportWrappedKey::database_asks_first(level, stages, replies),
        stages[0] == ImportWrappedKey::Admitting(request, Admission::of(request.key)),
        0 <= n < stages.len(),
    ensures
        stages[n] matches ImportWrappedKey::Loading(_, load) ==> load.permits()
            || ImportWrappedKey::was_told_grant(level, stages, replies, n)
            ==> ImportWrappedKey::was_granted(level, stages, replies, n, KeyPerm::Use),
        stages[n] matches ImportWrappedKey::Loading(_, load) ==> !(load is CheckingForced),
        stages[n] is Admitting ==> !ImportWrappedKey::was_told_grant(level, stages, replies, n),
        stages[n].is_past_key() && !(stages[n] matches ImportWrappedKey::Done(Err(_)))
            ==> ImportWrappedKey::was_granted(level, stages, replies, n, KeyPerm::Use),
    decreases n,
{
    if n > 0 {
        lemma_wrapping_key_granted(level, request, stages, replies, n - 1);
        law_wrapped_import_keeps_to_the_request(level, request, stages, replies, n - 1);
        let reply = replies[n - 1];
        assert(stages[n - 1].goes_to(level, reply, stages[n]));
        if ImportWrappedKey::was_granted(level, stages, replies, n - 1, KeyPerm::Use) {
            let i = choose|i: int|
                0 <= i < n - 1 && #[trigger] is_grant(
                    stages[i].asks(&level),
                    replies[i],
                    KeyPerm::Use,
                );
            assert(is_grant(stages[i].asks(&level), replies[i], KeyPerm::Use));
        }
        if stages[n - 1] matches ImportWrappedKey::Loading(_, Load::CheckingUse { .. }) {
            if let Reply::Status(Ok(_)) = reply {
                assert(is_grant(stages[n - 1].asks(&level), replies[n - 1], KeyPerm::Use));
            }
        }
        if ImportWrappedKey::was_told_grant(level, stages, replies, n)
            && !ImportWrappedKey::was_told_grant(level, stages, replies, n - 1) {
            let i = choose|i: int|
                0 <= i < n && #[trigger] tells_grant(stages[i].asks(&level), replies[i]);
            assert(i == n - 1);
        }
    }
}

/// Where the database asks before it hands out the wrapping key, the device imports a wrapped
/// key, and the import succeeds, only after the caller was granted the use of the wrapping key.
pub proof fn law_wrapping_key_needs_the_permission_to_use(
    level: KeystoreSecurityLevel,
    request: WrappedRequest,
    stages: Seq<ImportWrappedKey>,
    replies: Seq<Reply>,
    n: int,
)
    requires
        ImportWrappedKey::run(level, stages, replies),
        ImportWrappedKey::database_asks_first(level, stages, replies),
        stages[0] == ImportWrappedKey::Admitting(request, Admission::of(request.key)),
        0 <= n < stages.len(),
        stages[n].asks(&level) is ImportWrappedKey
            || stages[n] matches ImportWrappedKey::Done(Ok(_)),
    ensures
        ImportWrappedKey::was_granted(level, stages, replies, n, KeyPerm::Use),
{
    lemma_wrapping_key_granted(level, request, stages, replies, n);
}

/// The import of a wrapped key asks for no permission but to bind the name of the new key and to
/// use the wrapping key.
pub proof fn law_wrapped_import_asks_for_two_permissions(
    level: KeystoreSecurityLevel,
    request: WrappedRequest,
    stages: Seq<ImportWrappedKey>,
    replies: Seq<Reply>,
    n: int,
)
    requires
        ImportWrappedKey::run(level, stages, replies),
        stages[0] == ImportWrappedKey::Admitting(request, Admission::of(request.key)),
        0 <= n < stages.len(),
    ensures
        !(stages[n] matches ImportWrappedKey::Loading(_, Load::CheckingForced { .. })),
        stages[n].asks(&level) matches Request::CheckKeyPermission { perm, .. } ==> perm
            == KeyPerm::Rebind || perm == KeyPerm::Use,
    decreases n,
{
    if n > 0 {
        law_wrapped_import_asks_for_two_permissions(level, request, stages, replies, n - 1);
        let _ = replies[n - 1];
        assert(stages[n - 1].goes_to(level, replies[n - 1], stages[n]));
    }
}

/// Wrapped material without a name, in a domain that does not take it, or for a wrapping key
/// that its caller manages itself, is refused at once; and a wrapped key of an app is bound to
/// its caller, whatever uid the descriptor named.
pub proof fn law_wrapped_keys_are_the_callers_own(
    caller: Caller,
    key: KeyDescriptor,
    wrapping_key: KeyDescriptor,
    masking_key: Option<Vec<u8>>,
    params: Vec<KeyParameter>,
    authenticators: Seq<AuthenticatorSpec>,
    import: ImportWrappedKey,
)
    requires
        import.starts(caller, key, wrapping_key, masking_key, params, authenticators),
    ensures
        key.blob is None || key.alias is None || wrapping_key.domain == Domain::Blob || !(key.domain
            == Domain::App || key.domain == Domain::SeLinux) ==> import == ImportWrappedKey::Done(
            Err(Error::Km(ErrorCode::InvalidArgument)),
        ),
        import matches ImportWrappedKey::Admitting(request, _) ==> {
            &&& request.key.blob is None
            &&& request.key.alias == key.alias
            &&& request.key.domain == key.domain
            &&& request.key.nspace == if key.domain == Domain::App {
                caller.uid.0
            } else {
                key.nspace
            }
            &&& Some(request.wrapped_data) == key.blob
        },
{
}

} // verus!
