//! Where every permission is granted and every service answers, the key store does what it was
//! asked.
//!
//! A reply that is not due leaves a piece of work as it is, so that one list of replies stands
//! for every request, whether or not it needs all of them.

use vstd::prelude::*;
use crate::admission::{law_admission, Admission};
use crate::counts::new_key_verdict;
use crate::course::{lemma_run_course, run_course, run_replies, visits, Delay, Handover};
use crate::create::{CreateOperation, Operation, OperationRequest};
use crate::generate::{is_external, Attester, GenerateKey, KeyRequest, Made, Making};
use crate::import::{ImportKey, ImportRequest};
use crate::level::KeystoreSecurityLevel;
use crate::load::Load;
use crate::params::{
    has_tag, import_format_of, law_additions_do_not_change_a_given_value,
    lemma_import_format_needs_an_algorithm, purpose_of, swapped_imeis, without_tag,
};
use crate::request::{AttestationKeyRef, ClockReading, Outcome, Reply, Request};
use crate::required::{completed_list, law_granted_list_is_completed, Completion};
use crate::store::describes;
use crate::types::{
    model, AppInfo, AttestationKeyInfo, Authorization, BeginResult, BlobMetaData, Certificate,
    CreateOperationResponse, Device, Domain, Error, Handle, KeyBlob, KeyCreationResult,
    KeyDescriptor, KeyMetadata, KeyParameter, KeyPurpose, KsKeyParam, LoadedKey, Param, Tag, Uuid,
};
use crate::upgrade::{plain_blob, Run, Target, Upgrade, Work};
use crate::wrapped::{ImportWrappedKey, WrappedRequest};

verus! {

/// What the services answer about the number of keys.
pub struct CountAnswers {
    pub limited: bool,
    pub count: Result<i32, Error>,
    pub info: AppInfo,
}

impl CountAnswers {
    /// One more key of this name is allowed.
    pub open spec fn allow(self, key: KeyDescriptor) -> bool {
        new_key_verdict(key, self.limited, self.count, self.info) is Ok
    }

    /// The answers, and the permission to bind the name of the key.
    pub open spec fn replies(self) -> Seq<Reply> {
        seq![
            Reply::Flag(self.limited),
            Reply::Count(self.count),
            Reply::App(self.info),
            Reply::Status(Ok(())),
        ]
    }
}

/// What the services answer while the parameters are completed.
pub struct CompletionAnswers {
    pub reading: ClockReading,
    pub aaid: Vec<u8>,
    pub reset: bool,
}

impl CompletionAnswers {
    /// The clock reading can be the date of a key.
    pub open spec fn are_dated(self) -> bool {
        &&& self.reading.millis_since_epoch is Some
        &&& self.reading.millis_since_epoch->0 <= i64::MAX
    }

    /// The answers, with every permission.
    pub open spec fn replies(self) -> Seq<Reply> {
        seq![
            Reply::Clock(self.reading),
            Reply::Aaid(Ok(self.aaid)),
            Reply::Status(Ok(())),
            Reply::Decision(Ok(self.reset)),
            Reply::Status(Ok(())),
        ]
    }

    /// The whole list of parameters.
    pub open spec fn whole(self, level: KeystoreSecurityLevel, params: Seq<KeyParameter>) -> Seq<
        Param,
    > {
        completed_list(
            level,
            model(params),
            self.reading.millis_since_epoch->0,
            self.aaid@,
            self.reset,
        )
    }
}

/// What the services answer while a new key is stored.
pub struct StoreAnswers {
    pub list: Vec<KsKeyParam>,
    pub date: i64,
    pub sealed: (Vec<u8>, BlobMetaData),
    pub key_id: i64,
    pub authorizations: Vec<Authorization>,
}

impl StoreAnswers {
    /// The answers.
    pub open spec fn replies(self) -> Seq<Reply> {
        seq![
            Reply::KsParameters(self.list),
            Reply::Date(Ok(self.date)),
            Reply::Sealed(Ok(self.sealed)),
            Reply::KeyId(Ok(self.key_id)),
            Reply::Authorizations(self.authorizations),
        ]
    }

    /// The metadata are those of the key that was created, as these answers have it.
    pub open spec fn give(
        self,
        level: KeystoreSecurityLevel,
        metadata: KeyMetadata,
        key: KeyDescriptor,
        created: KeyCreationResult,
    ) -> bool {
        &&& describes(level, metadata, key, created)
        &&& key.domain != Domain::Blob ==> metadata.key.nspace == self.key_id
        &&& metadata.authorizations == self.authorizations
        &&& metadata.modification_time_ms == self.date
    }
}

/// These replies come one after the other from this place on.
#[verifier::opaque]
pub open spec fn come_at(replies: Seq<Reply>, at: int, part: Seq<Reply>) -> bool {
    &&& 0 <= at
    &&& at + part.len() <= replies.len()
    &&& forall|i: int| 0 <= i < part.len() ==> #[trigger] part[i] == replies[at + i]
}

/// Where a list of replies is joined from four, each of them comes at its place.
proof fn lemma_parts(
    replies: Seq<Reply>,
    first: Seq<Reply>,
    second: Seq<Reply>,
    third: Seq<Reply>,
    fourth: Seq<Reply>,
)
    requires
        replies == first + second + third + fourth,
    ensures
        replies.len() == first.len() + second.len() + third.len() + fourth.len(),
        come_at(replies, 0, first),
        come_at(replies, first.len() as int, second),
        come_at(replies, (first.len() + second.len()) as int, third),
        come_at(replies, (first.len() + second.len() + third.len()) as int, fourth),
{
    reveal(come_at);
}

/// Where a list of replies is joined from three, each of them comes at its place.
proof fn lemma_three_parts(
    replies: Seq<Reply>,
    first: Seq<Reply>,
    second: Seq<Reply>,
    third: Seq<Reply>,
)
    requires
        replies == first + second + third,
    ensures
        replies.len() == first.len() + second.len() + third.len(),
        come_at(replies, 0, first),
        come_at(replies, first.len() as int, second),
        come_at(replies, (first.len() + second.len()) as int, third),
{
    reveal(come_at);
}

/// Where a part is joined from three, each of them comes at its place.
proof fn lemma_parts_of_part(
    replies: Seq<Reply>,
    at: int,
    first: Seq<Reply>,
    second: Seq<Reply>,
    third: Seq<Reply>,
)
    requires
        come_at(replies, at, first + second + third),
    ensures
        come_at(replies, at, first),
        come_at(replies, at + first.len(), second),
        come_at(replies, at + first.len() + second.len(), third),
{
    reveal(come_at);
    let part = first + second + third;
    assert forall|i: int| 0 <= i < first.len() implies #[trigger] first[i] == replies[at + i] by {
        assert(part[i] == first[i]);
    }
    assert forall|i: int| 0 <= i < second.len() implies #[trigger] second[i] == replies[at
        + first.len() + i] by {
        assert(part[first.len() + i] == second[i]);
    }
    assert forall|i: int| 0 <= i < third.len() implies #[trigger] third[i] == replies[at
        + first.len() + second.len() + i] by {
        assert(part[first.len() + second.len() + i] == third[i]);
    }
}

/// The reply at this place of a part.
proof fn lemma_reply_at(replies: Seq<Reply>, at: int, part: Seq<Reply>, i: int)
    requires
        come_at(replies, at, part),
        0 <= i < part.len(),
    ensures
        0 <= at,
        at + part.len() <= replies.len(),
        replies[at + i] == part[i],
{
    reveal(come_at);
    let _ = part[i];
}

/// One step of an import, at a place of a part.
proof fn lemma_import_step_at(
    level: KeystoreSecurityLevel,
    stages: Seq<ImportKey>,
    replies: Seq<Reply>,
    at: int,
    part: Seq<Reply>,
    i: int,
)
    requires
        ImportKey::run(level, stages, replies),
        come_at(replies, at, part),
        0 <= i < part.len(),
    ensures
        stages[at + i].goes_to(level, part[i], stages[at + i + 1]),
{
    lemma_reply_at(replies, at, part, i);
}

/// One step of the import of a wrapped key, at a place of a part.
proof fn lemma_wrapped_step_at(
    level: KeystoreSecurityLevel,
    stages: Seq<ImportWrappedKey>,
    replies: Seq<Reply>,
    at: int,
    part: Seq<Reply>,
    i: int,
)
    requires
        ImportWrappedKey::run(level, stages, replies),
        come_at(replies, at, part),
        0 <= i < part.len(),
    ensures
        stages[at + i].goes_to(level, part[i], stages[at + i + 1]),
{
    lemma_reply_at(replies, at, part, i);
}

/// One step of the creation of an operation, at a place of a part.
proof fn lemma_creation_step_at(
    level: KeystoreSecurityLevel,
    stages: Seq<CreateOperation>,
    replies: Seq<Reply>,
    at: int,
    part: Seq<Reply>,
    i: int,
)
    requires
        CreateOperation::run(level, stages, replies),
        come_at(replies, at, part),
        0 <= i < part.len(),
    ensures
        stages[at + i].goes_to(level, part[i], stages[at + i + 1]),
{
    lemma_reply_at(replies, at, part, i);
}

/// One step of a generation, at a place of a part.
proof fn lemma_generation_step_at(
    level: KeystoreSecurityLevel,
    stages: Seq<GenerateKey>,
    replies: Seq<Reply>,
    at: int,
    part: Seq<Reply>,
    i: int,
)
    requires
        GenerateKey::run(level, stages, replies),
        come_at(replies, at, part),
        0 <= i < part.len(),
    ensures
        stages[at + i].goes_to(level, part[i], stages[at + i + 1]),
{
    lemma_reply_at(replies, at, part, i);
}

// ---------------------------------------------------------------------------------------
// Import
// ---------------------------------------------------------------------------------------
proof fn lemma_import_admitted(
    level: KeystoreSecurityLevel,
    request: ImportRequest,
    params: Vec<KeyParameter>,
    answers: CountAnswers,
    stages: Seq<ImportKey>,
    replies: Seq<Reply>,
)
    requires
        ImportKey::run(level, stages, replies),
        come_at(replies, 0, answers.replies()),
        stages[0] == ImportKey::Admitting(request, params, Admission::of(request.key)),
        answers.allow(request.key),
    ensures
        stages[4].follows_completion(request, Completion::of(request.caller.uid, model(params@))),
{
    let part = answers.replies();
    lemma_import_step_at(level, stages, replies, 0, part, 0);
    lemma_import_step_at(level, stages, replies, 0, part, 1);
    lemma_import_step_at(level, stages, replies, 0, part, 2);
    lemma_import_step_at(level, stages, replies, 0, part, 3);
    law_admission(request.key, answers.limited, answers.count, answers.info, Ok(()));
}

proof fn lemma_import_completes(
    level: KeystoreSecurityLevel,
    request: ImportRequest,
    c: Completion,
    stage: ImportKey,
    reply: Reply,
    next: ImportKey,
)
    requires
        stage.follows_completion(request, c),
        stage.goes_to(level, reply, next),
        !(reply is Created),
    ensures
        next.follows_completion(request, c.after(level, reply)),
{
}

proof fn lemma_import_completed(
    level: KeystoreSecurityLevel,
    request: ImportRequest,
    params: Vec<KeyParameter>,
    answers: CompletionAnswers,
    stages: Seq<ImportKey>,
    replies: Seq<Reply>,
    at: int,
)
    requires
        ImportKey::run(level, stages, replies),
        come_at(replies, at, answers.replies()),
        stages[at].follows_completion(request, Completion::of(request.caller.uid, model(params@))),
        !has_tag(model(params@), Tag::CreationDatetime),
        answers.are_dated(),
    ensures
        stages[at + 5].follows_completion(
            request,
            Completion::Done(Ok(answers.whole(level, params@))),
        ),
{
    let ps = model(params@);
    let r = answers.replies();
    let c0 = Completion::of(request.caller.uid, ps);
    lemma_import_completed_upto(level, request, c0, r, stages, replies, at, 5);
    law_granted_list_is_completed(
        level,
        request.caller.uid,
        ps,
        answers.reading,
        answers.aaid,
        answers.reset,
    );
    assert(r.take(5) =~= r);
}

proof fn lemma_import_completed_upto(
    level: KeystoreSecurityLevel,
    request: ImportRequest,
    c: Completion,
    part: Seq<Reply>,
    stages: Seq<ImportKey>,
    replies: Seq<Reply>,
    at: int,
    n: int,
)
    requires
        ImportKey::run(level, stages, replies),
        come_at(replies, at, part),
        0 <= n <= part.len(),
        forall|i: int| 0 <= i < part.len() ==> !(#[trigger] part[i] is Created),
        stages[at].follows_completion(request, c),
    ensures
        stages[at + n].follows_completion(request, c.run(level, part.take(n))),
    decreases n,
{
    if n > 0 {
        lemma_import_completed_upto(level, request, c, part, stages, replies, at, n - 1);
        assert(part.take(n).drop_last() =~= part.take(n - 1));
        lemma_import_step_at(level, stages, replies, at, part, n - 1);
        lemma_import_completes(
            level,
            request,
            c.run(level, part.take(n - 1)),
            stages[at + n - 1],
            part[n - 1],
            stages[at + n],
        );
    }
}

proof fn lemma_import_stores(
    level: KeystoreSecurityLevel,
    request: ImportRequest,
    created: KeyCreationResult,
    answers: StoreAnswers,
    stages: Seq<ImportKey>,
    replies: Seq<Reply>,
    at: int,
)
    requires
        ImportKey::run(level, stages, replies),
        come_at(replies, at, answers.replies()),
        stages[at] matches ImportKey::Storing(store) && store.starts(
            request.key,
            created,
            request.caller.user,
            Some(request.flags),
        ),
    ensures
        stages[at + 5] matches ImportKey::Done(Ok(metadata)) && answers.give(
            level,
            metadata,
            request.key,
            created,
        ),
{
    let part = answers.replies();
    lemma_import_step_at(level, stages, replies, at, part, 0);
    lemma_import_step_at(level, stages, replies, at, part, 1);
    lemma_import_step_at(level, stages, replies, at, part, 2);
    lemma_import_step_at(level, stages, replies, at, part, 3);
    lemma_import_step_at(level, stages, replies, at, part, 4);
}

/// Where one more key is allowed, the caller has every permission and every service answers, an
/// import succeeds: the device gets the material with the whole list of parameters, and the
/// caller learns of the key that it made.
pub proof fn law_import_succeeds(
    level: KeystoreSecurityLevel,
    request: ImportRequest,
    params: Vec<KeyParameter>,
    counts: CountAnswers,
    completion: CompletionAnswers,
    created: KeyCreationResult,
    storing: StoreAnswers,
    stages: Seq<ImportKey>,
    replies: Seq<Reply>,
)
    requires
        ImportKey::run(level, stages, replies),
        replies == counts.replies() + completion.replies() + seq![Reply::Created(Ok(created))]
            + storing.replies(),
        stages[0] == ImportKey::Admitting(request, params, Admission::of(request.key)),
        counts.allow(request.key),
        !has_tag(model(params@), Tag::CreationDatetime),
        import_format_of(model(params@)) is Ok,
        completion.are_dated(),
    ensures
        stages[9] matches ImportKey::Importing(r, whole, format) && {
            &&& r == request
            &&& model(whole@) == completion.whole(level, params@)
            &&& Ok::<_, Error>(format) == import_format_of(model(params@))
        },
        stages.last() matches ImportKey::Done(Ok(metadata)) && storing.give(
            level,
            metadata,
            request.key,
            created,
        ),
{
    let ps = model(params@);
    let made = seq![Reply::Created(Ok(created))];
    lemma_parts(replies, counts.replies(), completion.replies(), made, storing.replies());
    lemma_import_admitted(level, request, params, counts, stages, replies);
    lemma_import_completed(level, request, params, completion, stages, replies, 4);
    let whole = completion.whole(level, params@);
    assert(import_format_of(whole) == import_format_of(ps)) by {
        lemma_import_format_needs_an_algorithm(ps);
        let more = whole.skip(ps.len() as int);
        assert(whole =~= ps + more);
        law_additions_do_not_change_a_given_value(ps, more, Tag::Algorithm);
    }
    lemma_import_step_at(level, stages, replies, 9, made, 0);
    lemma_import_stores(level, request, created, storing, stages, replies, 10);
}

// ---------------------------------------------------------------------------------------
// Generation
// ---------------------------------------------------------------------------------------
proof fn lemma_generation_admitted(
    level: KeystoreSecurityLevel,
    request: KeyRequest,
    params: Vec<KeyParameter>,
    answers: CountAnswers,
    stages: Seq<GenerateKey>,
    replies: Seq<Reply>,
)
    requires
        GenerateKey::run(level, stages, replies),
        come_at(replies, 0, answers.replies()),
        stages[0] == GenerateKey::Admitting(request, params, Admission::of(request.key)),
        answers.allow(request.key),
    ensures
        stages[4] == GenerateKey::Preferring(request, params),
{
    let part = answers.replies();
    lemma_generation_step_at(level, stages, replies, 0, part, 0);
    lemma_generation_step_at(level, stages, replies, 0, part, 1);
    lemma_generation_step_at(level, stages, replies, 0, part, 2);
    lemma_generation_step_at(level, stages, replies, 0, part, 3);
    law_admission(request.key, answers.limited, answers.count, answers.info, Ok(()));
}

proof fn lemma_generation_completes(
    level: KeystoreSecurityLevel,
    request: KeyRequest,
    info: Option<AttestationKeyInfo>,
    c: Completion,
    stage: GenerateKey,
    reply: Reply,
    next: GenerateKey,
)
    requires
        stage.follows_completion(request, info, c),
        stage.goes_to(level, reply, next),
        !(reply is Flag),
    ensures
        next.follows_completion(request, info, c.after(level, reply)),
{
}

proof fn lemma_generation_completed_upto(
    level: KeystoreSecurityLevel,
    request: KeyRequest,
    info: Option<AttestationKeyInfo>,
    c: Completion,
    part: Seq<Reply>,
    stages: Seq<GenerateKey>,
    replies: Seq<Reply>,
    at: int,
    n: int,
)
    requires
        GenerateKey::run(level, stages, replies),
        come_at(replies, at, part),
        0 <= n <= part.len(),
        forall|i: int| 0 <= i < part.len() ==> !(#[trigger] part[i] is Flag),
        stages[at].follows_completion(request, info, c),
    ensures
        stages[at + n].follows_completion(request, info, c.run(level, part.take(n))),
    decreases n,
{
    if n > 0 {
        lemma_generation_completed_upto(
            level,
            request,
            info,
            c,
            part,
            stages,
            replies,
            at,
            n - 1,
        );
        assert(part.take(n).drop_last() =~= part.take(n - 1));
        lemma_generation_step_at(level, stages, replies, at, part, n - 1);
        lemma_generation_completes(
            level,
            request,
            info,
            c.run(level, part.take(n - 1)),
            stages[at + n - 1],
            part[n - 1],
            stages[at + n],
        );
    }
}

proof fn lemma_generation_completed(
    level: KeystoreSecurityLevel,
    request: KeyRequest,
    info: Option<AttestationKeyInfo>,
    params: Vec<KeyParameter>,
    answers: CompletionAnswers,
    stages: Seq<GenerateKey>,
    replies: Seq<Reply>,
    at: int,
)
    requires
        GenerateKey::run(level, stages, replies),
        come_at(replies, at, answers.replies()),
        stages[at].follows_completion(
            request,
            info,
            Completion::of(request.caller.uid, model(params@)),
        ),
        !has_tag(model(params@), Tag::CreationDatetime),
        answers.are_dated(),
    ensures
        stages[at + 5].follows_completion(
            request,
            info,
            Completion::Done(Ok(answers.whole(level, params@))),
        ),
{
    let ps = model(params@);
    let r = answers.replies();
    let c0 = Completion::of(request.caller.uid, ps);
    lemma_generation_completed_upto(level, request, info, c0, r, stages, replies, at, 5);
    law_granted_list_is_completed(
        level,
        request.caller.uid,
        ps,
        answers.reading,
        answers.aaid,
        answers.reset,
    );
    assert(r.take(5) =~= r);
}

/// The attestation key with which a key is made: none where the lookup is skipped or the key
/// goes back to its caller as a blob, and else the one that was found.
pub open spec fn attest_key_in_use(
    key: KeyDescriptor,
    local: bool,
    found: Option<AttestationKeyInfo>,
) -> Option<AttestationKeyInfo> {
    if local || key.domain == Domain::Blob {
        None
    } else {
        found
    }
}

/// What the services answer about the attestation key. One that is tracked is not compared.
pub open spec fn tracking_replies(is_tracked: bool, is_treated_so: bool) -> Seq<Reply> {
    if is_tracked {
        seq![Reply::Flag(true)]
    } else {
        seq![Reply::Flag(false), Reply::Flag(is_treated_so)]
    }
}

/// Where one more key is allowed, the caller has every permission and every service answers, the
/// generation of a key comes as far as the choice between software and device, with the whole
/// list of parameters and with the attestation key that was found.
pub proof fn law_new_key_is_ready_to_be_made(
    level: KeystoreSecurityLevel,
    request: KeyRequest,
    params: Vec<KeyParameter>,
    counts: CountAnswers,
    local: bool,
    found: Option<AttestationKeyInfo>,
    completion: CompletionAnswers,
    is_tracked: bool,
    is_treated_so: bool,
    stages: Seq<GenerateKey>,
    replies: Seq<Reply>,
)
    requires
        GenerateKey::run(level, stages, replies),
        replies == counts.replies() + seq![Reply::Flag(local), Reply::AttestKey(Ok(found))]
            + completion.replies() + tracking_replies(is_tracked, is_treated_so),
        stages[0] == GenerateKey::Admitting(request, params, Admission::of(request.key)),
        counts.allow(request.key),
        !has_tag(model(params@), Tag::CreationDatetime),
        completion.are_dated(),
    ensures
        stages.last() matches GenerateKey::Choosing(making, info) && {
            &&& making.request == request
            &&& model(making.params@) == completion.whole(level, params@)
            &&& making.uses_tracked_key == (is_tracked || is_treated_so)
            &&& info == attest_key_in_use(request.key, local, found)
        },
{
    let info = attest_key_in_use(request.key, local, found);
    let lookup = seq![Reply::Flag(local), Reply::AttestKey(Ok(found))];
    lemma_parts(
        replies,
        counts.replies(),
        lookup,
        completion.replies(),
        tracking_replies(is_tracked, is_treated_so),
    );
    lemma_generation_admitted(level, request, params, counts, stages, replies);
    assert(stages[6].follows_completion(
        request,
        info,
        Completion::of(request.caller.uid, model(params@)),
    )) by {
        lemma_generation_step_at(level, stages, replies, 4, lookup, 0);
        lemma_generation_step_at(level, stages, replies, 4, lookup, 1);
    }
    lemma_generation_completed(level, request, info, params, completion, stages, replies, 6);
    lemma_generation_tracked(
        level,
        request,
        info,
        completion.whole(level, params@),
        is_tracked,
        is_treated_so,
        stages,
        replies,
        11,
    );
}

proof fn lemma_generation_tracked(
    level: KeystoreSecurityLevel,
    request: KeyRequest,
    info: Option<AttestationKeyInfo>,
    whole: Seq<Param>,
    is_tracked: bool,
    is_treated_so: bool,
    stages: Seq<GenerateKey>,
    replies: Seq<Reply>,
    at: int,
)
    requires
        GenerateKey::run(level, stages, replies),
        come_at(replies, at, tracking_replies(is_tracked, is_treated_so)),
        stages[at].follows_completion(request, info, Completion::Done(Ok(whole))),
    ensures
        stages[at + tracking_replies(
            is_tracked,
            is_treated_so,
        ).len()] matches GenerateKey::Choosing(making, i) && {
            &&& making.request == request
            &&& model(making.params@) == whole
            &&& making.uses_tracked_key == (is_tracked || is_treated_so)
            &&& i == info
        },
{
    let part = tracking_replies(is_tracked, is_treated_so);
    lemma_generation_step_at(level, stages, replies, at, part, 0);
    if !is_tracked {
        lemma_generation_step_at(level, stages, replies, at, part, 1);
    }
}

/// A key that is to be made in software is made so, if that works.
pub proof fn law_software_key_is_made(
    level: KeystoreSecurityLevel,
    making: Making,
    info: Option<AttestationKeyInfo>,
    created: KeyCreationResult,
    chosen: GenerateKey,
    next: GenerateKey,
)
    requires
        GenerateKey::Choosing(making, info).goes_to(level, Reply::Flag(true), chosen),
        chosen.goes_to(level, Reply::Software(Ok(Some(created))), next),
    ensures
        next == making.done(created, false, true).revised(),
{
}

/// The device makes a key without an attestation key, at the second attempt where it knows the
/// IMEIs in the other order.
pub proof fn law_plain_key_is_made(
    level: KeystoreSecurityLevel,
    making: Making,
    delay: Delay,
    created: KeyCreationResult,
    stages: Seq<GenerateKey>,
    replies: Seq<Reply>,
)
    requires
        GenerateKey::run(level, stages, replies),
        replies == delay.replies().push(Reply::Created(Ok(created))),
        stages[0] == GenerateKey::on_device(level, making, None),
        delay.suits(level, model(making.params@)),
    ensures
        stages[delay.replies().len() as int].asks(&level) matches Request::GenerateKey {
            device,
            params,
            attest_key,
        } && {
            &&& device == Device::Own
            &&& attest_key is None
            &&& model(params@) == if delay is Mismatch {
                swapped_imeis(model(making.params@))
            } else {
                model(making.params@)
            }
        },
        stages.last() == making.done(created, false, false).revised(),
{
    assert(stages[0].goes_to(level, replies[0], stages[1]));
    if delay is Mismatch {
        assert(stages[1].goes_to(level, replies[1], stages[2]));
    }
}

/// Who makes a key.
pub enum Choice {
    /// Software.
    Software,
    /// The device, as software is not asked.
    Device,
    /// The device, as this is all that came of asking software.
    FellBack(Result<Option<KeyCreationResult>, Error>),
}

impl Choice {
    /// The answers.
    pub open spec fn replies(self) -> Seq<Reply> {
        match self {
            Choice::Software => seq![Reply::Flag(true)],
            Choice::Device => seq![Reply::Flag(false)],
            Choice::FellBack(failure) => seq![Reply::Flag(true), Reply::Software(failure)],
        }
    }

    /// The device makes the key.
    pub open spec fn is_device(self) -> bool {
        match self {
            Choice::Software => false,
            Choice::Device => true,
            Choice::FellBack(failure) => !(failure matches Ok(Some(_))),
        }
    }
}

proof fn lemma_generation_chosen(
    level: KeystoreSecurityLevel,
    making: Making,
    info: Option<AttestationKeyInfo>,
    choice: Choice,
    stages: Seq<GenerateKey>,
    replies: Seq<Reply>,
    at: int,
)
    requires
        GenerateKey::run(level, stages, replies),
        come_at(replies, at, choice.replies()),
        stages[at] == GenerateKey::Choosing(making, info),
        choice.is_device(),
    ensures
        stages[at + choice.replies().len()] == GenerateKey::on_device(level, making, info),
{
    let part = choice.replies();
    lemma_generation_step_at(level, stages, replies, at, part, 0);
    if choice is FellBack {
        lemma_generation_step_at(level, stages, replies, at, part, 1);
    }
}

/// What the services answer while a device makes a key that the caller's key attests.
pub struct AttestedAnswers {
    /// The interface version of the device that holds the attestation key, if it is found.
    pub version: Result<i32, Error>,
    /// The upgrade of the attestation key, if the device wants one.
    pub upgrade: Option<Handover>,
    /// The blob on which the operation is called for then.
    pub called_on: Vec<u8>,
    /// What the device answers to that call.
    pub first: KeyCreationResult,
    /// The outcome of the run.
    pub created: KeyCreationResult,
    pub upgraded_blob: Option<Vec<u8>>,
}

impl AttestedAnswers {
    /// The answers to the calls for the operation.
    pub open spec fn run_replies(self) -> Seq<Reply> {
        let first = Outcome::Created(self.first);
        run_replies(false, self.upgrade, self.called_on, Delay::Nothing, first)
    }

    /// The answers.
    pub open spec fn replies(self) -> Seq<Reply> {
        seq![Reply::DeviceVersion(self.version)] + self.run_replies() + seq![
            Reply::UpgradeDone(Ok((Outcome::Created(self.created), self.upgraded_blob))),
        ]
    }

    /// The device that makes the key.
    pub open spec fn device(self, km_uuid: Option<Uuid>) -> Device {
        if km_uuid is Some && self.version is Ok {
            Device::ByUuid(km_uuid->0)
        } else {
            Device::Own
        }
    }
}

/// What the services answer while the device makes a key that a provisioned key attests.
pub struct ProvisionedAnswers {
    pub rpc_name: String,
    /// The upgrade of the provisioned key, if the device wants one.
    pub upgrade: Option<Handover>,
    /// The blob on which the operation is called for then.
    pub called_on: Vec<u8>,
    /// The failure of the first attempt, if the device knows the IMEIs in the other order.
    pub delay: Delay,
    /// What the device answers in the end.
    pub first: KeyCreationResult,
    /// The outcome of the run.
    pub created: KeyCreationResult,
    pub upgraded_blob: Option<Vec<u8>>,
    /// Whether the post-processor is in use. Where that cannot be found out, it is not.
    pub processor: Result<bool, Error>,
    /// The chain that it returns, if it is.
    pub chain: Vec<Certificate>,
}

impl ProvisionedAnswers {
    /// The answers to the calls for the operation.
    pub open spec fn run_replies(self) -> Seq<Reply> {
        let first = Outcome::Created(self.first);
        run_replies(false, self.upgrade, self.called_on, self.delay, first)
    }

    /// The device can answer so where it makes a key with these parameters.
    pub open spec fn suit(self, level: KeystoreSecurityLevel, whole: Seq<Param>) -> bool {
        &&& self.delay.suits(level, whole)
        &&& self.upgrade matches Some(h) ==> h.delay.suits(level, whole)
    }

    /// The answers.
    pub open spec fn replies(self) -> Seq<Reply> {
        seq![Reply::Name(Ok(self.rpc_name))] + self.run_replies() + seq![
            Reply::UpgradeDone(Ok((Outcome::Created(self.created), self.upgraded_blob))),
            Reply::Decision(self.processor),
            Reply::Chain(self.chain),
        ]
    }

    /// This is the key that the device made, with its certificate chain completed: by the
    /// post-processor, or by the certificates of the provisioned key in one entry.
    pub open spec fn complete(self, completed: KeyCreationResult, certs: Vec<u8>) -> bool {
        &&& completed.key_blob == self.created.key_blob
        &&& completed.key_characteristics == self.created.key_characteristics
        &&& completed.certificate_chain@ == if self.processor == Ok::<bool, Error>(true) {
            self.chain@
        } else {
            self.created.certificate_chain@.push(Certificate { encoded_certificate: certs })
        }
    }
}

/// The stage of a generation with its run at this stage.
spec fn attesting_at(stage: GenerateKey, run: Upgrade) -> GenerateKey {
    match stage {
        GenerateKey::Attesting { making, device, version, issuer_subject, .. } => {
            GenerateKey::Attesting { making, device, version, issuer_subject, run }
        },
        GenerateKey::Provisioned { making, issuer_subject, attestation_certs, .. } => {
            GenerateKey::Provisioned { making, issuer_subject, attestation_certs, run }
        },
        _ => stage,
    }
}

/// The generation is at this work with the attestation key.
spec fn attests_by(stage: GenerateKey, work: Work) -> bool {
    match stage {
        GenerateKey::Attesting { making, device, version, issuer_subject, .. } => {
            work == making.attested_work(device, version, &issuer_subject)
        },
        GenerateKey::Provisioned { making, issuer_subject, .. } => {
            work == making.provisioned_work(&issuer_subject)
        },
        _ => false,
    }
}

/// The run of a generation with an attestation key.
spec fn run_in(stage: GenerateKey) -> Upgrade {
    match stage {
        GenerateKey::Attesting { run, .. } | GenerateKey::Provisioned { run, .. } => run,
        _ => arbitrary(),
    }
}

/// The generation stands at this stage, with its run here.
spec fn is_attesting_at(now: GenerateKey, stage: GenerateKey, run: Upgrade, work: Work) -> bool {
    &&& now == attesting_at(stage, run_in(now))
    &&& run_in(now).agrees(run, work)
}

proof fn lemma_attesting_goes_on(
    level: KeystoreSecurityLevel,
    stage: GenerateKey,
    work: Work,
    run: Upgrade,
    reply: Reply,
    again: Upgrade,
    now: GenerateKey,
    next: GenerateKey,
)
    requires
        attests_by(stage, work),
        run.must_go_to(level, work, reply, again),
        is_attesting_at(now, stage, run, work),
        now.goes_to(level, reply, next),
    ensures
        is_attesting_at(next, stage, again, work),
{
    reveal(Upgrade::must_go_to);
}

/// A generation with an attestation key follows the course of its run.
proof fn lemma_generation_on_course(
    level: KeystoreSecurityLevel,
    stage: GenerateKey,
    work: Work,
    course: Seq<Upgrade>,
    part: Seq<Reply>,
    stages: Seq<GenerateKey>,
    replies: Seq<Reply>,
    at: int,
    k: int,
)
    requires
        GenerateKey::run(level, stages, replies),
        come_at(replies, at, part),
        Upgrade::is_course(level, work, course, part),
        attests_by(stage, work),
        is_attesting_at(stages[at], stage, course[0], work),
        0 <= k <= part.len(),
    ensures
        is_attesting_at(stages[at + k], stage, course[k], work),
    decreases k,
{
    if k > 0 {
        lemma_generation_on_course(
            level,
            stage,
            work,
            course,
            part,
            stages,
            replies,
            at,
            k - 1,
        );
        lemma_generation_step_at(level, stages, replies, at, part, k - 1);
        assert(course[k - 1].must_go_to(level, work, part[k - 1], course[k]));
        lemma_attesting_goes_on(
            level,
            stage,
            work,
            course[k - 1],
            part[k - 1],
            course[k],
            stages[at + k - 1],
            stages[at + k],
        );
    }
}

/// A generation with an attestation key follows its run, whether or not a blob is upgraded on the
/// way.
proof fn lemma_generation_run(
    level: KeystoreSecurityLevel,
    stage: GenerateKey,
    work: Work,
    run: Run,
    upgrade: Option<Handover>,
    blob: Vec<u8>,
    delay: Delay,
    first: KeyCreationResult,
    stages: Seq<GenerateKey>,
    replies: Seq<Reply>,
    at: int,
)
    requires
        GenerateKey::run(level, stages, replies),
        come_at(replies, at, run_replies(false, upgrade, blob, delay, Outcome::Created(first))),
        attests_by(stage, work),
        stages[at] == attesting_at(stage, Upgrade::Running(run)),
        delay.fits(level, work),
        upgrade matches Some(h) ==> h.fits(level, work, run.target),
    ensures
        ({
            let outcome = Outcome::Created(first);
            let course = run_course(work, run, upgrade, blob, delay, outcome);
            let n = run_replies(false, upgrade, blob, delay, outcome).len() as int;
            &&& visits(course, work, run, upgrade, blob, delay, n)
            &&& forall|k: int|
                0 <= k <= n ==> is_attesting_at(
                    stages[at + k],
                    stage,
                    #[trigger] course[k],
                    work,
                )
        }),
{
    let outcome = Outcome::Created(first);
    let course = run_course(work, run, upgrade, blob, delay, outcome);
    let part = run_replies(false, upgrade, blob, delay, outcome);
    lemma_run_course(level, work, run, upgrade, blob, delay, outcome);
    assert forall|k: int| 0 <= k <= part.len() implies is_attesting_at(
        stages[at + k],
        stage,
        #[trigger] course[k],
        work,
    ) by {
        lemma_generation_on_course(level, stage, work, course, part, stages, replies, at, k);
    }
}

/// The device that holds the caller's attestation key, or the device at hand where that one is
/// not found, makes a key, and the caller's key signs its attestation. Where the device wants the
/// attestation key to be upgraded first, the upgraded blob is stored, and the key is made with
/// that.
pub proof fn law_attested_key_is_made(
    level: KeystoreSecurityLevel,
    making: Making,
    key_id: i64,
    blob: Vec<u8>,
    blob_metadata: BlobMetaData,
    issuer_subject: Vec<u8>,
    answers: AttestedAnswers,
    stages: Seq<GenerateKey>,
    replies: Seq<Reply>,
)
    requires
        GenerateKey::run(level, stages, replies),
        replies == answers.replies(),
        stages[0] == GenerateKey::on_device(
            level,
            making,
            Some(
                AttestationKeyInfo::UserGenerated { key_id, blob, blob_metadata, issuer_subject },
            ),
        ),
        answers.upgrade matches Some(h) ==> h.is_stored_at_once(),
    ensures
        answers.upgrade matches Some(h) ==> {
            &&& stages[2].asks(&level) == attested_request(
                answers.device(blob_metadata.km_uuid),
                &making.params,
                &h.called_on,
                &issuer_subject,
            )
            &&& stages[3int + h.refusal_replies(false).len()].asks(&level) == h.stored_as(
                key_id,
                blob_metadata.km_uuid,
            )
        },
        stages[answers.run_replies().len() - 1].asks(&level) == attested_request(
            answers.device(blob_metadata.km_uuid),
            &making.params,
            &answers.called_on,
            &issuer_subject,
        ),
        stages.last() == making.done(answers.created, true, false).revised(),
{
    let attester = Attester { key_id, blob, km_uuid: blob_metadata.km_uuid, issuer_subject };
    let device = answers.device(blob_metadata.km_uuid);
    let version = if device is ByUuid {
        answers.version->Ok_0
    } else {
        level.hw_info.version_number
    };
    let start = GenerateKey::attesting(making, attester, device, version);
    let work = making.attested_work(device, version, &issuer_subject);
    let run = start->Attesting_run->Running_0;
    let first = seq![Reply::DeviceVersion(answers.version)];
    let part = answers.run_replies();
    let last = seq![
        Reply::UpgradeDone(Ok((Outcome::Created(answers.created), answers.upgraded_blob))),
    ];
    let n = part.len() as int;
    lemma_three_parts(replies, first, part, last);
    assert(stages[1] == start) by {
        lemma_generation_step_at(level, stages, replies, 0, first, 0);
    }
    lemma_generation_run(
        level,
        start,
        work,
        run,
        answers.upgrade,
        answers.called_on,
        Delay::Nothing,
        answers.first,
        stages,
        replies,
        1,
    );
    lemma_generation_step_at(level, stages, replies, 1 + n, last, 0);
}

/// The request that a device make a key for this attestation key.
pub open spec fn attested_request<'a>(
    device: Device,
    params: &'a Vec<KeyParameter>,
    key_blob: &'a Vec<u8>,
    issuer_subject_name: &'a Vec<u8>,
) -> Request<'a> {
    Request::GenerateKey {
        device,
        params,
        attest_key: Some(AttestationKeyRef { key_blob, issuer_subject_name }),
    }
}

/// The device is asked to make a key with these parameters for this attestation key.
pub open spec fn asks_attested(
    asked: Request,
    ps: Seq<Param>,
    key_blob: Vec<u8>,
    issuer_subject: Vec<u8>,
) -> bool {
    &&& asked matches Request::GenerateKey { device, params, attest_key: Some(key) }
    &&& device == Device::Own
    &&& model(params@) == ps
    &&& *key.key_blob == key_blob
    &&& *key.issuer_subject_name == issuer_subject
}

/// The device makes a key, and a provisioned key signs its attestation. Where the device wants the
/// provisioned key to be upgraded first, the upgraded blob goes to the component that provisioned
/// it, and the key is made with that. Where the device knows the IMEIs in the other order, the key
/// is made at the second attempt, with the IMEIs exchanged. The post-processor replaces the
/// certificate chain where it is in use; else the certificates of the provisioned key are added to
/// the chain as one entry.
pub proof fn law_provisioned_key_is_made(
    level: KeystoreSecurityLevel,
    making: Making,
    key_blob: Vec<u8>,
    issuer_subject: Vec<u8>,
    attestation_certs: Vec<u8>,
    answers: ProvisionedAnswers,
    stages: Seq<GenerateKey>,
    replies: Seq<Reply>,
)
    requires
        GenerateKey::run(level, stages, replies),
        replies == answers.replies(),
        stages[0] == GenerateKey::on_device(
            level,
            making,
            Some(
                AttestationKeyInfo::RkpdProvisioned { key_blob, issuer_subject, attestation_certs },
            ),
        ),
        answers.suit(level, model(making.params@)),
    ensures
        answers.upgrade matches Some(h) ==> {
            &&& stages[2].asks(&level) == attested_request(
                Device::Own,
                &making.params,
                &h.called_on,
                &issuer_subject,
            )
            &&& stages[2int + h.refusal_replies(false).len()].asks(&level) == (
            Request::StoreRkpdAttestationKey {
                rpc_name: &answers.rpc_name,
                key_blob: &key_blob,
                upgraded_blob: &h.blob,
            })
        },
        asks_attested(
            stages[answers.run_replies().len() - 1].asks(&level),
            if answers.delay is Mismatch {
                swapped_imeis(model(making.params@))
            } else {
                model(making.params@)
            },
            answers.called_on,
            issuer_subject,
        ),
        stages.last() == stages.last().made().revised(),
        stages.last().made() == making.done(stages.last().made().created, false, false),
        answers.complete(stages.last().made().created, attestation_certs),
{
    let run = Run {
        key_blob: plain_blob(key_blob),
        target: Target::Rkpd { rpc_name: answers.rpc_name },
    };
    let start = GenerateKey::Provisioned {
        making,
        issuer_subject,
        attestation_certs,
        run: Upgrade::Running(run),
    };
    let work = making.provisioned_work(&issuer_subject);
    let first = seq![Reply::Name(Ok(answers.rpc_name))];
    let part = answers.run_replies();
    let last = seq![
        Reply::UpgradeDone(Ok((Outcome::Created(answers.created), answers.upgraded_blob))),
        Reply::Decision(answers.processor),
        Reply::Chain(answers.chain),
    ];
    let n = part.len() as int;
    lemma_three_parts(replies, first, part, last);
    assert(stages[1] == start) by {
        lemma_generation_step_at(level, stages, replies, 0, first, 0);
    }
    lemma_generation_run(
        level,
        start,
        work,
        run,
        answers.upgrade,
        answers.called_on,
        answers.delay,
        answers.first,
        stages,
        replies,
        1,
    );
    assert(stages[2 + n] == GenerateKey::AskingProcessor(
        making.done(answers.created, false, false),
        attestation_certs,
    )) by {
        lemma_generation_step_at(level, stages, replies, 1 + n, last, 0);
    }
    lemma_generation_step_at(level, stages, replies, 1 + n, last, 1);
    lemma_generation_step_at(level, stages, replies, 1 + n, last, 2);
}

/// A key that was made is stored, with the certificate chain that the app is to see if it is
/// attested, and the caller learns of it.
pub proof fn law_made_key_is_stored(
    level: KeystoreSecurityLevel,
    made: Made,
    revised: KeyCreationResult,
    params: Vec<KeyParameter>,
    storing: StoreAnswers,
    stages: Seq<GenerateKey>,
    replies: Seq<Reply>,
)
    requires
        GenerateKey::run(level, stages, replies),
        replies == seq![Reply::Revised(revised), Reply::Parameters(params), Reply::Returned]
            + storing.replies(),
        stages[0] == made.revised(),
    ensures
        stages.last() matches GenerateKey::Done(Ok(metadata)) && storing.give(
            level,
            metadata,
            made.request.key,
            if has_tag(model(made.params@), Tag::AttestationChallenge) {
                revised
            } else {
                made.created
            },
        ),
{
    let created = if has_tag(model(made.params@), Tag::AttestationChallenge) {
        revised
    } else {
        made.created
    };
    let first = seq![Reply::Revised(revised), Reply::Parameters(params), Reply::Returned];
    assert(replies =~= first + storing.replies() + Seq::<Reply>::empty());
    lemma_three_parts(replies, first, storing.replies(), Seq::<Reply>::empty());
    assert(stages[3] matches GenerateKey::Storing(store) && store.starts(
        made.request.key,
        created,
        made.request.caller.user,
        Some(made.request.flags),
    )) by {
        lemma_generation_step_at(level, stages, replies, 0, first, 0);
        lemma_generation_step_at(level, stages, replies, 0, first, 1);
        lemma_generation_step_at(level, stages, replies, 0, first, 2);
    }
    lemma_generation_stores(level, made.request, created, storing, stages, replies, 3);
}

proof fn lemma_generation_stores(
    level: KeystoreSecurityLevel,
    request: KeyRequest,
    created: KeyCreationResult,
    answers: StoreAnswers,
    stages: Seq<GenerateKey>,
    replies: Seq<Reply>,
    at: int,
)
    requires
        GenerateKey::run(level, stages, replies),
        come_at(replies, at, answers.replies()),
        stages[at] matches GenerateKey::Storing(store) && store.starts(
            request.key,
            created,
            request.caller.user,
            Some(request.flags),
        ),
    ensures
        stages[at + 5] matches GenerateKey::Done(Ok(metadata)) && answers.give(
            level,
            metadata,
            request.key,
            created,
        ),
{
    let part = answers.replies();
    lemma_generation_step_at(level, stages, replies, at, part, 0);
    lemma_generation_step_at(level, stages, replies, at, part, 1);
    lemma_generation_step_at(level, stages, replies, at, part, 2);
    lemma_generation_step_at(level, stages, replies, at, part, 3);
    lemma_generation_step_at(level, stages, replies, at, part, 4);
}

proof fn lemma_part_of_generation(
    level: KeystoreSecurityLevel,
    stages: Seq<GenerateKey>,
    replies: Seq<Reply>,
    at: int,
    part: Seq<Reply>,
)
    requires
        GenerateKey::run(level, stages, replies),
        come_at(replies, at, part),
    ensures
        0 <= at,
        at + part.len() < stages.len(),
        GenerateKey::run(level, stages.subrange(at, at + part.len() + 1), part),
{
    reveal(come_at);
    let sub = stages.subrange(at, at + part.len() + 1);
    assert forall|i: int| #![trigger part[i]] 0 <= i < part.len() implies sub[i].goes_to(
        level,
        part[i],
        sub[i + 1],
    ) by {
        lemma_generation_step_at(level, stages, replies, at, part, i);
    }
}

/// What the services answer until it is chosen between software and device.
pub struct ReadyAnswers {
    pub counts: CountAnswers,
    /// Whether the lookup of an attestation key is skipped.
    pub local: bool,
    /// The attestation key that the lookup finds.
    pub found: Option<AttestationKeyInfo>,
    pub completion: CompletionAnswers,
    pub is_tracked: bool,
    pub is_treated_so: bool,
}

impl ReadyAnswers {
    /// The answers, with every permission.
    pub open spec fn replies(self) -> Seq<Reply> {
        self.counts.replies() + seq![
            Reply::Flag(self.local),
            Reply::AttestKey(Ok(self.found)),
        ] + self.completion.replies() + tracking_replies(self.is_tracked, self.is_treated_so)
    }

    /// A key with these parameters can be made: there may be one more, and it can be dated.
    pub open spec fn allow(self, key: KeyDescriptor, params: Seq<KeyParameter>) -> bool {
        &&& self.counts.allow(key)
        &&& !has_tag(model(params), Tag::CreationDatetime)
        &&& self.completion.are_dated()
    }
}

/// What the services answer once a key is made.
pub struct MadeAnswers {
    /// The key with the certificate chain that the app is to see.
    pub revised: KeyCreationResult,
    /// The parameters with the patch levels of the key.
    pub synced: Vec<KeyParameter>,
    pub storing: StoreAnswers,
}

impl MadeAnswers {
    /// The answers.
    pub open spec fn replies(self) -> Seq<Reply> {
        seq![Reply::Revised(self.revised), Reply::Parameters(self.synced), Reply::Returned]
            + self.storing.replies()
    }

    /// The metadata are those of the key that was made: as the app is to see it if it is
    /// attested, and else as it was made.
    pub open spec fn give(
        self,
        level: KeystoreSecurityLevel,
        metadata: KeyMetadata,
        key: KeyDescriptor,
        whole: Seq<Param>,
        created: KeyCreationResult,
    ) -> bool {
        self.storing.give(
            level,
            metadata,
            key,
            if has_tag(whole, Tag::AttestationChallenge) {
                self.revised
            } else {
                created
            },
        )
    }
}

/// The first part of a generation: it is ready for the choice.
proof fn lemma_generation_ready(
    level: KeystoreSecurityLevel,
    request: KeyRequest,
    params: Vec<KeyParameter>,
    ready: ReadyAnswers,
    stages: Seq<GenerateKey>,
    replies: Seq<Reply>,
)
    requires
        GenerateKey::run(level, stages, replies),
        come_at(replies, 0, ready.replies()),
        stages[0] == GenerateKey::Admitting(request, params, Admission::of(request.key)),
        ready.allow(request.key, params@),
    ensures
        stages[ready.replies().len() as int] matches GenerateKey::Choosing(making, info) && {
            &&& making.request == request
            &&& model(making.params@) == ready.completion.whole(level, params@)
            &&& info == attest_key_in_use(request.key, ready.local, ready.found)
        },
{
    let part = ready.replies();
    lemma_part_of_generation(level, stages, replies, 0, part);
    let sub = stages.subrange(0, part.len() as int + 1);
    assert(sub[0] == stages[0]);
    law_new_key_is_ready_to_be_made(
        level,
        request,
        params,
        ready.counts,
        ready.local,
        ready.found,
        ready.completion,
        ready.is_tracked,
        ready.is_treated_so,
        sub,
        part,
    );
    assert(sub.last() == stages[part.len() as int]);
}

/// The last part of a generation: the key that was made is stored.
proof fn lemma_generation_stored(
    level: KeystoreSecurityLevel,
    made: Made,
    answers: MadeAnswers,
    stages: Seq<GenerateKey>,
    replies: Seq<Reply>,
    at: int,
)
    requires
        GenerateKey::run(level, stages, replies),
        come_at(replies, at, answers.replies()),
        at + answers.replies().len() == replies.len(),
        stages[at] == made.revised(),
    ensures
        stages.last() matches GenerateKey::Done(Ok(metadata)) && answers.give(
            level,
            metadata,
            made.request.key,
            model(made.params@),
            made.created,
        ),
{
    let part = answers.replies();
    lemma_part_of_generation(level, stages, replies, at, part);
    let sub = stages.subrange(at, at + part.len() + 1);
    assert(sub[0] == stages[at]);
    law_made_key_is_stored(
        level,
        made,
        answers.revised,
        answers.synced,
        answers.storing,
        sub,
        part,
    );
    assert(sub.last() == stages.last());
}

/// Where one more key is allowed, the caller has every permission and every service answers, a
/// key without an attestation key is made, in software or by the device, and stored, and the
/// caller learns of it. So it is where nothing came of making it in software, and where the
/// device makes it at the second attempt only.
pub proof fn law_generation_succeeds(
    level: KeystoreSecurityLevel,
    request: KeyRequest,
    params: Vec<KeyParameter>,
    ready: ReadyAnswers,
    choice: Choice,
    delay: Delay,
    created: KeyCreationResult,
    made: MadeAnswers,
    stages: Seq<GenerateKey>,
    replies: Seq<Reply>,
)
    requires
        GenerateKey::run(level, stages, replies),
        replies == ready.replies() + choice.replies() + (if choice is Software {
            seq![Reply::Software(Ok(Some(created)))]
        } else {
            delay.replies().push(Reply::Created(Ok(created)))
        }) + made.replies(),
        stages[0] == GenerateKey::Admitting(request, params, Admission::of(request.key)),
        ready.allow(request.key, params@),
        attest_key_in_use(request.key, ready.local, ready.found) is None,
        choice is Software || choice.is_device(),
        delay.suits(level, ready.completion.whole(level, params@)),
    ensures
        stages.last() matches GenerateKey::Done(Ok(metadata)) && made.give(
            level,
            metadata,
            request.key,
            ready.completion.whole(level, params@),
            created,
        ),
{
    let n = ready.replies().len() as int;
    let chosen = choice.replies();
    let m = n + chosen.len();
    let part = if choice is Software {
        seq![Reply::Software(Ok(Some(created)))]
    } else {
        delay.replies().push(Reply::Created(Ok(created)))
    };
    lemma_parts(replies, ready.replies(), chosen, part, made.replies());
    lemma_generation_ready(level, request, params, ready, stages, replies);
    let making = stages[n]->Choosing_0;
    assert(stages[m + part.len()] == making.done(created, false, choice is Software).revised())
        by {
        if choice is Software {
            lemma_generation_step_at(level, stages, replies, n, chosen, 0);
            lemma_generation_step_at(level, stages, replies, m, part, 0);
        } else {
            lemma_generation_chosen(level, making, None, choice, stages, replies, n);
            lemma_part_of_generation(level, stages, replies, m, part);
            let sub = stages.subrange(m, m + part.len() + 1);
            assert(sub[0] == stages[m]);
            assert(sub.last() == stages[m + part.len()]);
            law_plain_key_is_made(level, making, delay, created, sub, part);
        }
    }
    lemma_generation_stored(
        level,
        making.done(created, false, choice is Software),
        made,
        stages,
        replies,
        m + part.len(),
    );
}

/// Where one more key is allowed, the caller has every permission and every service answers, a
/// key that the caller's own key is to attest is made by a device and stored, and the caller
/// learns of it.
pub proof fn law_attested_generation_succeeds(
    level: KeystoreSecurityLevel,
    request: KeyRequest,
    params: Vec<KeyParameter>,
    ready: ReadyAnswers,
    choice: Choice,
    attested: AttestedAnswers,
    made: MadeAnswers,
    stages: Seq<GenerateKey>,
    replies: Seq<Reply>,
)
    requires
        GenerateKey::run(level, stages, replies),
        replies == ready.replies() + choice.replies() + attested.replies() + made.replies(),
        stages[0] == GenerateKey::Admitting(request, params, Admission::of(request.key)),
        ready.allow(request.key, params@),
        is_external(attest_key_in_use(request.key, ready.local, ready.found)),
        choice.is_device(),
        attested.upgrade matches Some(h) ==> h.is_stored_at_once(),
    ensures
        stages.last() matches GenerateKey::Done(Ok(metadata)) && made.give(
            level,
            metadata,
            request.key,
            ready.completion.whole(level, params@),
            attested.created,
        ),
{
    let n = ready.replies().len() as int;
    let m = n + choice.replies().len();
    let part = attested.replies();
    lemma_parts(replies, ready.replies(), choice.replies(), part, made.replies());
    lemma_generation_ready(level, request, params, ready, stages, replies);
    let making = stages[n]->Choosing_0;
    let info = stages[n]->Choosing_1;
    lemma_generation_chosen(level, making, info, choice, stages, replies, n);
    let sub = stages.subrange(m, m + part.len() + 1);
    lemma_part_of_generation(level, stages, replies, m, part);
    assert(sub[0] == stages[m]);
    assert(sub.last() == stages[m + part.len()]);
    if let Some(
        AttestationKeyInfo::UserGenerated { key_id, blob, blob_metadata, issuer_subject },
    ) = info {
        law_attested_key_is_made(
            level,
            making,
            key_id,
            blob,
            blob_metadata,
            issuer_subject,
            attested,
            sub,
            part,
        );
    }
    lemma_generation_stored(
        level,
        making.done(attested.created, true, false),
        made,
        stages,
        replies,
        m + part.len(),
    );
}

/// Where one more key is allowed, the caller has every permission and every service answers, a
/// key that a provisioned key is to attest is made by the device and stored, with its certificate
/// chain completed, and the caller learns of it.
pub proof fn law_provisioned_generation_succeeds(
    level: KeystoreSecurityLevel,
    request: KeyRequest,
    params: Vec<KeyParameter>,
    ready: ReadyAnswers,
    choice: Choice,
    provisioned: ProvisionedAnswers,
    made: MadeAnswers,
    stages: Seq<GenerateKey>,
    replies: Seq<Reply>,
)
    requires
        GenerateKey::run(level, stages, replies),
        replies == ready.replies() + choice.replies() + provisioned.replies() + made.replies(),
        stages[0] == GenerateKey::Admitting(request, params, Admission::of(request.key)),
        ready.allow(request.key, params@),
        attest_key_in_use(request.key, ready.local, ready.found) matches Some(info)
            && info is RkpdProvisioned,
        choice.is_device(),
        provisioned.suit(level, ready.completion.whole(level, params@)),
    ensures
        stages.last() matches GenerateKey::Done(Ok(metadata)) && exists|
            completed: KeyCreationResult,
        |
            {
                &&& #[trigger] provisioned.complete(
                    completed,
                    ready.found->0->RkpdProvisioned_attestation_certs,
                )
                &&& made.give(
                    level,
                    metadata,
                    request.key,
                    ready.completion.whole(level, params@),
                    completed,
                )
            },
{
    let n = ready.replies().len() as int;
    let m = n + choice.replies().len();
    let part = provisioned.replies();
    lemma_parts(replies, ready.replies(), choice.replies(), part, made.replies());
    lemma_generation_ready(level, request, params, ready, stages, replies);
    let making = stages[n]->Choosing_0;
    let info = stages[n]->Choosing_1;
    lemma_generation_chosen(level, making, info, choice, stages, replies, n);
    let sub = stages.subrange(m, m + part.len() + 1);
    lemma_part_of_generation(level, stages, replies, m, part);
    assert(sub[0] == stages[m]);
    assert(sub.last() == stages[m + part.len()]);
    if let Some(
        AttestationKeyInfo::RkpdProvisioned { key_blob, issuer_subject, attestation_certs },
    ) = info {
        law_provisioned_key_is_made(
            level,
            making,
            key_blob,
            issuer_subject,
            attestation_certs,
            provisioned,
            sub,
            part,
        );
    }
    let completed = stages[m + part.len()].made().created;
    lemma_generation_stored(
        level,
        making.done(completed, false, false),
        made,
        stages,
        replies,
        m + part.len(),
    );
}

// ---------------------------------------------------------------------------------------
// Import of a wrapped key
// ---------------------------------------------------------------------------------------
/// What the services answer while a stored key is loaded and a device works with it.
pub struct UseAnswers {
    /// The key of which the database asks whether the caller may have it.
    pub key: KeyDescriptor,
    pub access: Option<i32>,
    pub loaded: LoadedKey,
    pub key_blob: KeyBlob,
    /// The upgrade of the key, if the device wants one.
    pub upgrade: Option<Handover>,
    /// The blob on which the operation is called for then.
    pub called_on: Vec<u8>,
    /// What comes before the device does what it is called for.
    pub delay: Delay,
    pub upgraded_blob: Option<Vec<u8>>,
    /// The old blob under new encryption, where that is due.
    pub reencrypted: (Vec<u8>, Option<BlobMetaData>),
}

impl UseAnswers {
    /// The device of the stored key, if it is known.
    pub open spec fn km_uuid(self) -> Option<Uuid> {
        match self.loaded.blob_info {
            Some((_, metadata)) => metadata.km_uuid,
            None => None,
        }
    }

    /// The device and the services can answer so where an operation begins: there may be no room
    /// for it at first, and an upgraded blob of a stored key is encrypted.
    pub open spec fn suit_operation(self, is_stored: bool) -> bool {
        &&& !(self.delay is Mismatch)
        &&& self.upgrade matches Some(h) ==> {
            &&& !(h.delay is Mismatch)
            &&& is_stored ==> h.reencrypted is Some
        }
    }

    /// The loading of the key, with every permission.
    pub open spec fn load_replies(self) -> Seq<Reply> {
        seq![
            Reply::AccessCheck { key: self.key, access: self.access },
            Reply::Status(Ok(())),
            Reply::Status(Ok(())),
            Reply::Returned,
            Reply::Loaded(Ok(self.loaded)),
        ]
    }

    /// The answers to the calls for the operation, where `first` is what the device does.
    pub open spec fn run_replies(self, first: Outcome) -> Seq<Reply> {
        run_replies(first is Begun, self.upgrade, self.called_on, self.delay, first)
    }

    /// The outcome of the run.
    pub open spec fn done_replies(self, outcome: Outcome) -> Seq<Reply> {
        seq![
            Reply::UpgradeDone(Ok((outcome, self.upgraded_blob))),
            Reply::Reencrypted(Ok(self.reencrypted)),
            Reply::Status(Ok(())),
        ]
    }

    /// The work of the device: what it does when it is called for, and the outcome of the run.
    pub open spec fn work_replies(self, first: Outcome, outcome: Outcome) -> Seq<Reply> {
        seq![Reply::Unwrapped(Ok(self.key_blob))] + self.run_replies(first) + self.done_replies(
            outcome,
        )
    }
}

proof fn lemma_wrapped_admitted(
    level: KeystoreSecurityLevel,
    request: WrappedRequest,
    answers: CountAnswers,
    stages: Seq<ImportWrappedKey>,
    replies: Seq<Reply>,
)
    requires
        ImportWrappedKey::run(level, stages, replies),
        come_at(replies, 0, answers.replies()),
        stages[0] == ImportWrappedKey::Admitting(request, Admission::of(request.key)),
        answers.allow(request.key),
    ensures
        stages[4] == ImportWrappedKey::Loading(request, Load::Loading),
{
    let part = answers.replies();
    lemma_wrapped_step_at(level, stages, replies, 0, part, 0);
    lemma_wrapped_step_at(level, stages, replies, 0, part, 1);
    lemma_wrapped_step_at(level, stages, replies, 0, part, 2);
    lemma_wrapped_step_at(level, stages, replies, 0, part, 3);
    law_admission(request.key, answers.limited, answers.count, answers.info, Ok(()));
}

proof fn lemma_importing_goes_on(
    level: KeystoreSecurityLevel,
    request: WrappedRequest,
    run: Upgrade,
    reply: Reply,
    again: Upgrade,
    next: ImportWrappedKey,
)
    requires
        run.must_go_to(level, request.work(), reply, again),
        run.agrees(run, request.work()),
        ImportWrappedKey::Importing(request, run).goes_to(level, reply, next),
    ensures
        next == ImportWrappedKey::Importing(request, again),
        again.agrees(again, request.work()),
{
    reveal(Upgrade::must_go_to);
}

/// The import of a wrapped key follows the course of its run.
proof fn lemma_wrapped_on_course(
    level: KeystoreSecurityLevel,
    request: WrappedRequest,
    course: Seq<Upgrade>,
    part: Seq<Reply>,
    stages: Seq<ImportWrappedKey>,
    replies: Seq<Reply>,
    at: int,
    k: int,
)
    requires
        ImportWrappedKey::run(level, stages, replies),
        come_at(replies, at, part),
        Upgrade::is_course(level, request.work(), course, part),
        stages[at] == ImportWrappedKey::Importing(request, course[0]),
        course[0].agrees(course[0], request.work()),
        0 <= k <= part.len(),
    ensures
        stages[at + k] == ImportWrappedKey::Importing(request, course[k]),
        course[k].agrees(course[k], request.work()),
    decreases k,
{
    if k > 0 {
        lemma_wrapped_on_course(level, request, course, part, stages, replies, at, k - 1);
        lemma_wrapped_step_at(level, stages, replies, at, part, k - 1);
        assert(course[k - 1].must_go_to(level, request.work(), part[k - 1], course[k]));
        lemma_importing_goes_on(
            level,
            request,
            course[k - 1],
            part[k - 1],
            course[k],
            stages[at + k],
        );
    }
}

/// The import of a wrapped key follows its run, whether or not a blob is upgraded on the way.
proof fn lemma_wrapped_run(
    level: KeystoreSecurityLevel,
    request: WrappedRequest,
    run: Run,
    upgrade: Option<Handover>,
    blob: Vec<u8>,
    first: KeyCreationResult,
    stages: Seq<ImportWrappedKey>,
    replies: Seq<Reply>,
    at: int,
)
    requires
        ImportWrappedKey::run(level, stages, replies),
        come_at(
            replies,
            at,
            run_replies(false, upgrade, blob, Delay::Nothing, Outcome::Created(first)),
        ),
        stages[at] == ImportWrappedKey::Importing(request, Upgrade::Running(run)),
        upgrade matches Some(h) ==> h.is_stored_at_once(),
    ensures
        ({
            let work = request.work();
            let outcome = Outcome::Created(first);
            let course = run_course(work, run, upgrade, blob, Delay::Nothing, outcome);
            let n = run_replies(false, upgrade, blob, Delay::Nothing, outcome).len() as int;
            &&& visits(course, work, run, upgrade, blob, Delay::Nothing, n)
            &&& forall|k: int|
                0 <= k <= n ==> stages[at + k] == ImportWrappedKey::Importing(
                    request,
                    #[trigger] course[k],
                )
        }),
{
    let work = request.work();
    let outcome = Outcome::Created(first);
    let course = run_course(work, run, upgrade, blob, Delay::Nothing, outcome);
    let part = run_replies(false, upgrade, blob, Delay::Nothing, outcome);
    lemma_run_course(level, work, run, upgrade, blob, Delay::Nothing, outcome);
    assert forall|k: int| 0 <= k <= part.len() implies stages[at + k]
        == ImportWrappedKey::Importing(request, #[trigger] course[k]) by {
        lemma_wrapped_on_course(level, request, course, part, stages, replies, at, k);
    }
}

proof fn lemma_wrapped_used(
    level: KeystoreSecurityLevel,
    request: WrappedRequest,
    answers: UseAnswers,
    first: KeyCreationResult,
    created: KeyCreationResult,
    stages: Seq<ImportWrappedKey>,
    replies: Seq<Reply>,
    at: int,
)
    requires
        ImportWrappedKey::run(level, stages, replies),
        come_at(
            replies,
            at,
            answers.work_replies(Outcome::Created(first), Outcome::Created(created)),
        ),
        stages[at] matches ImportWrappedKey::Unwrapping { request: r, .. } && r == request,
        answers.delay is Nothing,
        answers.upgrade matches Some(h) ==> h.is_stored_at_once(),
    ensures
        answers.upgrade matches Some(h) ==> {
            &&& stages[at + 2].asks(&level) == request.unwrapped_with(&h.called_on)
            &&& stages[at + h.refusal_replies(false).len() + 3].asks(&level) == h.stored_as(
                stages[at]->Unwrapping_key_id,
                stages[at]->Unwrapping_blob_metadata.km_uuid,
            )
        },
        stages[at + answers.run_replies(Outcome::Created(first)).len() - 1].asks(&level)
            == request.unwrapped_with(&answers.called_on),
        stages[at + answers.run_replies(Outcome::Created(first)).len() + 4] matches
            ImportWrappedKey::Storing(store) && store.starts(
            request.key,
            created,
            request.caller.user,
            None,
        ),
{
    let unwrapped = seq![Reply::Unwrapped(Ok(answers.key_blob))];
    let part = answers.run_replies(Outcome::Created(first));
    let last = answers.done_replies(Outcome::Created(created));
    let n = part.len() as int;
    let run = Run {
        key_blob: answers.key_blob,
        target: Target::Stored {
            key_id: Some(stages[at]->Unwrapping_key_id),
            km_uuid: stages[at]->Unwrapping_blob_metadata.km_uuid,
        },
    };
    lemma_parts_of_part(replies, at, unwrapped, part, last);
    assert(stages[at + 1] == ImportWrappedKey::Importing(request, Upgrade::Running(run))) by {
        lemma_wrapped_step_at(level, stages, replies, at, unwrapped, 0);
    }
    lemma_wrapped_run(
        level,
        request,
        run,
        answers.upgrade,
        answers.called_on,
        first,
        stages,
        replies,
        at + 1,
    );
    lemma_wrapped_finishes(
        level,
        request,
        run.after_upgrade(answers.upgrade),
        answers,
        created,
        stages,
        replies,
        at + 1 + n,
    );
}

/// The run of the import of a wrapped key comes to its end, and the old blob is encrypted anew
/// where that is due.
proof fn lemma_wrapped_finishes(
    level: KeystoreSecurityLevel,
    request: WrappedRequest,
    run: Run,
    answers: UseAnswers,
    created: KeyCreationResult,
    stages: Seq<ImportWrappedKey>,
    replies: Seq<Reply>,
    at: int,
)
    requires
        ImportWrappedKey::run(level, stages, replies),
        come_at(replies, at, answers.done_replies(Outcome::Created(created))),
        stages[at] == ImportWrappedKey::Importing(request, Upgrade::Running(run)),
    ensures
        stages[at + 3] matches ImportWrappedKey::Storing(store) && store.starts(
            request.key,
            created,
            request.caller.user,
            None,
        ),
{
    let part = answers.done_replies(Outcome::Created(created));
    lemma_wrapped_step_at(level, stages, replies, at, part, 0);
    lemma_wrapped_step_at(level, stages, replies, at, part, 1);
    lemma_wrapped_step_at(level, stages, replies, at, part, 2);
}

impl WrappedRequest {
    /// The request that the device import the key, unwrapped with this blob.
    pub open spec fn unwrapped_with<'a>(&'a self, wrapping_key_blob: &'a Vec<u8>) -> Request<'a> {
        Request::ImportWrappedKey {
            wrapped_data: &self.wrapped_data,
            wrapping_key_blob,
            masking_key: &self.masking_key,
            params: &self.params,
            password_sid: self.password_sid,
            fingerprint_sid: self.fingerprint_sid,
        }
    }
}

proof fn lemma_wrapped_stores(
    level: KeystoreSecurityLevel,
    request: WrappedRequest,
    created: KeyCreationResult,
    answers: StoreAnswers,
    stages: Seq<ImportWrappedKey>,
    replies: Seq<Reply>,
    at: int,
)
    requires
        ImportWrappedKey::run(level, stages, replies),
        come_at(replies, at, answers.replies()),
        stages[at] matches ImportWrappedKey::Storing(store) && store.starts(
            request.key,
            created,
            request.caller.user,
            None,
        ),
    ensures
        stages[at + 5] matches ImportWrappedKey::Done(Ok(metadata)) && answers.give(
            level,
            metadata,
            request.key,
            created,
        ),
{
    let part = answers.replies();
    lemma_wrapped_step_at(level, stages, replies, at, part, 0);
    lemma_wrapped_step_at(level, stages, replies, at, part, 1);
    lemma_wrapped_step_at(level, stages, replies, at, part, 2);
    lemma_wrapped_step_at(level, stages, replies, at, part, 3);
    lemma_wrapped_step_at(level, stages, replies, at, part, 4);
}

/// Where one more key is allowed, the caller has every permission, the wrapping key is there and
/// every service answers, the import of a wrapped key succeeds, and the caller learns of the key
/// that the device made. Where the device wants the wrapping key to be upgraded first, the
/// upgraded blob is stored, and the device unwraps with that.
pub proof fn law_wrapped_import_succeeds(
    level: KeystoreSecurityLevel,
    request: WrappedRequest,
    counts: CountAnswers,
    using: UseAnswers,
    first: KeyCreationResult,
    created: KeyCreationResult,
    storing: StoreAnswers,
    stages: Seq<ImportWrappedKey>,
    replies: Seq<Reply>,
)
    requires
        ImportWrappedKey::run(level, stages, replies),
        replies == counts.replies() + using.load_replies() + using.work_replies(
            Outcome::Created(first),
            Outcome::Created(created),
        ) + storing.replies(),
        stages[0] == ImportWrappedKey::Admitting(request, Admission::of(request.key)),
        counts.allow(request.key),
        using.loaded.blob_info is Some,
        using.delay is Nothing,
        using.upgrade matches Some(h) ==> h.is_stored_at_once(),
    ensures
        using.upgrade matches Some(h) ==> {
            &&& stages[11].asks(&level) == request.unwrapped_with(&h.called_on)
            &&& stages[12int + h.refusal_replies(false).len()].asks(&level) == h.stored_as(
                using.loaded.key_id,
                using.km_uuid(),
            )
        },
        stages[8int + using.run_replies(Outcome::Created(first)).len()].asks(&level)
            == request.unwrapped_with(&using.called_on),
        stages.last() matches ImportWrappedKey::Done(Ok(metadata)) && storing.give(
            level,
            metadata,
            request.key,
            created,
        ),
{
    let loads = using.load_replies();
    let work = using.work_replies(Outcome::Created(first), Outcome::Created(created));
    let n = using.run_replies(Outcome::Created(first)).len() as int;
    lemma_parts(replies, counts.replies(), loads, work, storing.replies());
    lemma_wrapped_admitted(level, request, counts, stages, replies);
    assert(stages[9] matches ImportWrappedKey::Unwrapping { request: r, key_id, blob_metadata, .. }
        && {
        &&& r == request
        &&& key_id == using.loaded.key_id
        &&& blob_metadata.km_uuid == using.km_uuid()
    }) by {
        lemma_wrapped_step_at(level, stages, replies, 4, loads, 0);
        lemma_wrapped_step_at(level, stages, replies, 4, loads, 1);
        lemma_wrapped_step_at(level, stages, replies, 4, loads, 2);
        lemma_wrapped_step_at(level, stages, replies, 4, loads, 3);
        lemma_wrapped_step_at(level, stages, replies, 4, loads, 4);
    }
    lemma_wrapped_used(level, request, using, first, created, stages, replies, 9);
    lemma_wrapped_stores(level, request, created, storing, stages, replies, 13 + n);
}

// ---------------------------------------------------------------------------------------
// Operations
// ---------------------------------------------------------------------------------------
/// The key blob of an operation: the one that the caller handed over, or that of the stored key.
pub open spec fn has_blob(request: OperationRequest, loaded: LoadedKey) -> bool {
    if request.key.domain == Domain::Blob {
        request.key.blob is Some
    } else {
        loaded.blob_info is Some
    }
}

/// The device is asked to begin the operation of this request, with this blob and this token.
pub open spec fn begins_for(
    asked: Request,
    request: OperationRequest,
    blob: Vec<u8>,
    token: Option<Handle>,
) -> bool {
    &&& asked matches Request::Begin { purpose, key_blob, params, auth_token }
    &&& purpose_of(model(request.params@)) == Ok::<KeyPurpose, Error>(purpose)
    &&& *key_blob == blob
    &&& model(params@) == without_tag(model(request.params@), Tag::Purpose)
    &&& auth_token == token
}

proof fn lemma_operation_key(
    level: KeystoreSecurityLevel,
    request: OperationRequest,
    answers: UseAnswers,
    stages: Seq<CreateOperation>,
    replies: Seq<Reply>,
)
    requires
        CreateOperation::run(level, stages, replies),
        come_at(replies, 0, answers.load_replies()),
        stages[0] == CreateOperation::of(request),
        has_blob(request, answers.loaded),
        purpose_of(model(request.params@)) is Ok,
    ensures
        stages[5] matches CreateOperation::Authorizing(operation, _) && {
            &&& operation.belongs_to(request)
            &&& request.key.domain != Domain::Blob ==> {
                &&& operation.key_id() == Some(answers.loaded.key_id)
                &&& operation.blob_metadata.km_uuid == answers.km_uuid()
            }
        },
{
    let part = answers.load_replies();
    lemma_creation_step_at(level, stages, replies, 0, part, 0);
    lemma_creation_step_at(level, stages, replies, 0, part, 1);
    lemma_creation_step_at(level, stages, replies, 0, part, 2);
    lemma_creation_step_at(level, stages, replies, 0, part, 3);
    lemma_creation_step_at(level, stages, replies, 0, part, 4);
}

/// The stage of a beginning with its run at this stage.
spec fn beginning_at(
    operation: Operation,
    auth_token: Option<Handle>,
    auth_info: Handle,
    run: Upgrade,
) -> CreateOperation {
    CreateOperation::Beginning { operation, auth_token, auth_info, run }
}

proof fn lemma_beginning_goes_on(
    level: KeystoreSecurityLevel,
    operation: Operation,
    auth_token: Option<Handle>,
    auth_info: Handle,
    run: Upgrade,
    reply: Reply,
    again: Upgrade,
    next: CreateOperation,
)
    requires
        run.must_go_to(level, operation.work(auth_token), reply, again),
        run.agrees(run, operation.work(auth_token)),
        beginning_at(operation, auth_token, auth_info, run).goes_to(level, reply, next),
    ensures
        next == beginning_at(operation, auth_token, auth_info, again),
        again.agrees(again, operation.work(auth_token)),
{
    reveal(Upgrade::must_go_to);
}

/// The beginning of an operation follows the course of its run.
proof fn lemma_beginning_on_course(
    level: KeystoreSecurityLevel,
    operation: Operation,
    auth_token: Option<Handle>,
    auth_info: Handle,
    course: Seq<Upgrade>,
    part: Seq<Reply>,
    stages: Seq<CreateOperation>,
    replies: Seq<Reply>,
    at: int,
    k: int,
)
    requires
        CreateOperation::run(level, stages, replies),
        come_at(replies, at, part),
        Upgrade::is_course(level, operation.work(auth_token), course, part),
        stages[at] == beginning_at(operation, auth_token, auth_info, course[0]),
        course[0].agrees(course[0], operation.work(auth_token)),
        0 <= k <= part.len(),
    ensures
        stages[at + k] == beginning_at(operation, auth_token, auth_info, course[k]),
        course[k].agrees(course[k], operation.work(auth_token)),
    decreases k,
{
    if k > 0 {
        lemma_beginning_on_course(
            level,
            operation,
            auth_token,
            auth_info,
            course,
            part,
            stages,
            replies,
            at,
            k - 1,
        );
        lemma_creation_step_at(level, stages, replies, at, part, k - 1);
        assert(course[k - 1].must_go_to(
            level,
            operation.work(auth_token),
            part[k - 1],
            course[k],
        ));
        lemma_beginning_goes_on(
            level,
            operation,
            auth_token,
            auth_info,
            course[k - 1],
            part[k - 1],
            course[k],
            stages[at + k],
        );
    }
}

/// The beginning of an operation follows its run, whether or not a blob is upgraded on the way.
proof fn lemma_beginning_run(
    level: KeystoreSecurityLevel,
    operation: Operation,
    auth_token: Option<Handle>,
    auth_info: Handle,
    run: Run,
    upgrade: Option<Handover>,
    blob: Vec<u8>,
    delay: Delay,
    first: BeginResult,
    stages: Seq<CreateOperation>,
    replies: Seq<Reply>,
    at: int,
)
    requires
        CreateOperation::run(level, stages, replies),
        come_at(replies, at, run_replies(true, upgrade, blob, delay, Outcome::Begun(first))),
        stages[at] == beginning_at(operation, auth_token, auth_info, Upgrade::Running(run)),
        delay.fits(level, operation.work(auth_token)),
        upgrade matches Some(h) ==> h.fits(level, operation.work(auth_token), run.target),
    ensures
        ({
            let work = operation.work(auth_token);
            let course = run_course(work, run, upgrade, blob, delay, Outcome::Begun(first));
            let n = run_replies(true, upgrade, blob, delay, Outcome::Begun(first)).len() as int;
            &&& visits(course, work, run, upgrade, blob, delay, n)
            &&& forall|k: int|
                0 <= k <= n ==> stages[at + k] == beginning_at(
                    operation,
                    auth_token,
                    auth_info,
                    #[trigger] course[k],
                )
        }),
{
    let work = operation.work(auth_token);
    let outcome = Outcome::Begun(first);
    let course = run_course(work, run, upgrade, blob, delay, outcome);
    let part = run_replies(true, upgrade, blob, delay, outcome);
    lemma_run_course(level, work, run, upgrade, blob, delay, outcome);
    assert forall|k: int| 0 <= k <= part.len() implies stages[at + k] == beginning_at(
        operation,
        auth_token,
        auth_info,
        #[trigger] course[k],
    ) by {
        lemma_beginning_on_course(
            level,
            operation,
            auth_token,
            auth_info,
            course,
            part,
            stages,
            replies,
            at,
            k,
        );
    }
}

/// The run of the beginning comes to its end, and the old blob is encrypted anew where that is
/// due.
proof fn lemma_beginning_finishes(
    level: KeystoreSecurityLevel,
    operation: Operation,
    auth_token: Option<Handle>,
    auth_info: Handle,
    run: Run,
    answers: UseAnswers,
    begun: BeginResult,
    stages: Seq<CreateOperation>,
    replies: Seq<Reply>,
    at: int,
)
    requires
        CreateOperation::run(level, stages, replies),
        come_at(replies, at, answers.done_replies(Outcome::Begun(begun))),
        stages[at] == beginning_at(operation, auth_token, auth_info, Upgrade::Running(run)),
    ensures
        stages[at + 3] == (CreateOperation::Finalizing {
            operation,
            auth_info,
            begun,
            upgraded_blob: answers.upgraded_blob,
        }),
{
    let part = answers.done_replies(Outcome::Begun(begun));
    lemma_creation_step_at(level, stages, replies, at, part, 0);
    lemma_creation_step_at(level, stages, replies, at, part, 1);
    lemma_creation_step_at(level, stages, replies, at, part, 2);
}

proof fn lemma_operation_begins(
    level: KeystoreSecurityLevel,
    answers: UseAnswers,
    first: BeginResult,
    begun: BeginResult,
    stages: Seq<CreateOperation>,
    replies: Seq<Reply>,
    at: int,
)
    requires
        CreateOperation::run(level, stages, replies),
        come_at(replies, at, answers.work_replies(Outcome::Begun(first), Outcome::Begun(begun))),
        stages[at] is Unwrapping,
        answers.suit_operation(stages[at]->Unwrapping_operation.key_id() is Some),
    ensures
        answers.upgrade matches Some(h) ==> {
            let operation = stages[at]->Unwrapping_operation;
            let auth_token = stages[at]->Unwrapping_auth_token;
            &&& stages[at + 2].asks(&level) == operation.begun_with(&h.called_on, auth_token)
            &&& operation.key_id() matches Some(key_id) ==> stages[at + h.refusal_replies(
                true,
            ).len() + 3].asks(&level) == h.stored_as(key_id, operation.blob_metadata.km_uuid)
        },
        stages[at + answers.run_replies(Outcome::Begun(first)).len() - 1].asks(&level)
            == stages[at]->Unwrapping_operation.begun_with(
            &answers.called_on,
            stages[at]->Unwrapping_auth_token,
        ),
        stages[at + answers.run_replies(Outcome::Begun(first)).len() + 4] == (
        CreateOperation::Finalizing {
            operation: stages[at]->Unwrapping_operation,
            auth_info: stages[at]->Unwrapping_auth_info,
            begun,
            upgraded_blob: answers.upgraded_blob,
        }),
{
    let unwrapped = seq![Reply::Unwrapped(Ok(answers.key_blob))];
    let part = answers.run_replies(Outcome::Begun(first));
    let last = answers.done_replies(Outcome::Begun(begun));
    let n = part.len() as int;
    let operation = stages[at]->Unwrapping_operation;
    let auth_token = stages[at]->Unwrapping_auth_token;
    let auth_info = stages[at]->Unwrapping_auth_info;
    let run = Run {
        key_blob: answers.key_blob,
        target: Target::Stored {
            key_id: operation.key_id(),
            km_uuid: operation.blob_metadata.km_uuid,
        },
    };
    lemma_parts_of_part(replies, at, unwrapped, part, last);
    assert(stages[at + 1] == beginning_at(
        operation,
        auth_token,
        auth_info,
        Upgrade::Running(run),
    )) by {
        lemma_creation_step_at(level, stages, replies, at, unwrapped, 0);
    }
    lemma_beginning_run(
        level,
        operation,
        auth_token,
        auth_info,
        run,
        answers.upgrade,
        answers.called_on,
        answers.delay,
        first,
        stages,
        replies,
        at + 1,
    );
    lemma_beginning_finishes(
        level,
        operation,
        auth_token,
        auth_info,
        run.after_upgrade(answers.upgrade),
        answers,
        begun,
        stages,
        replies,
        at + 1 + n,
    );
}

impl Operation {
    /// The request that the device begin the operation with this blob.
    pub open spec fn begun_with<'a>(
        &'a self,
        key_blob: &'a Vec<u8>,
        auth_token: Option<Handle>,
    ) -> Request<'a> {
        Request::Begin { purpose: self.purpose, key_blob, params: &self.params, auth_token }
    }
}

/// Where the operation has a purpose and its key a blob, the caller has every permission, the
/// device begins and every service answers, the caller gets the operation: with the challenge,
/// with what the device returned, if that is anything, and with the upgraded blob, if there is
/// one and the caller handed over the key as a blob. Where the device has no room at first, it
/// begins once there is; and where the device wants the key to be upgraded first, the upgraded blob
/// of a stored key is stored, and the device begins with that.
pub proof fn law_operation_is_created(
    level: KeystoreSecurityLevel,
    request: OperationRequest,
    using: UseAnswers,
    authorization: (Option<Handle>, Handle),
    first: BeginResult,
    begun: BeginResult,
    challenge: Option<i64>,
    algorithm: i32,
    registered: Handle,
    interface: Handle,
    stages: Seq<CreateOperation>,
    replies: Seq<Reply>,
)
    requires
        CreateOperation::run(level, stages, replies),
        replies == using.load_replies() + seq![Reply::Authorized(Ok(authorization))]
            + using.work_replies(Outcome::Begun(first), Outcome::Begun(begun)) + seq![
            Reply::Challenge(challenge),
            Reply::AlgorithmCode(algorithm),
            Reply::Registered(registered),
            Reply::Interface(Ok(interface)),
        ],
        stages[0] == CreateOperation::of(request),
        has_blob(request, using.loaded),
        purpose_of(model(request.params@)) is Ok,
        begun.operation is Some,
        using.suit_operation(request.key.domain != Domain::Blob),
    ensures
        using.upgrade matches Some(h) ==> {
            &&& begins_for(stages[8].asks(&level), request, h.called_on, authorization.0)
            &&& request.key.domain != Domain::Blob ==> stages[9int + h.refusal_replies(
                true,
            ).len()].asks(&level) == h.stored_as(using.loaded.key_id, using.km_uuid())
        },
        begins_for(
            stages[5int + using.run_replies(Outcome::Begun(first)).len()].asks(&level),
            request,
            using.called_on,
            authorization.0,
        ),
        stages.last() == CreateOperation::Done(
            Ok(
                CreateOperationResponse {
                    operation: interface,
                    operation_challenge: challenge,
                    parameters: if begun.params@.len() == 0 {
                        None
                    } else {
                        Some(begun.params)
                    },
                    upgraded_blob: if request.key.domain == Domain::Blob {
                        using.upgraded_blob
                    } else {
                        None
                    },
                },
            ),
        ),
{
    let authorized = seq![Reply::Authorized(Ok(authorization))];
    let work = using.work_replies(Outcome::Begun(first), Outcome::Begun(begun));
    let n = using.run_replies(Outcome::Begun(first)).len() as int;
    let last = seq![
        Reply::Challenge(challenge),
        Reply::AlgorithmCode(algorithm),
        Reply::Registered(registered),
        Reply::Interface(Ok(interface)),
    ];
    lemma_parts(replies, using.load_replies(), authorized, work, last);
    lemma_operation_key(level, request, using, stages, replies);
    let operation = stages[5]->Authorizing_0;
    assert(stages[6] matches CreateOperation::Unwrapping { operation: o, auth_token, .. } && o
        == operation && auth_token == authorization.0) by {
        lemma_creation_step_at(level, stages, replies, 5, authorized, 0);
    }
    lemma_operation_begins(level, using, first, begun, stages, replies, 6);
    lemma_creation_step_at(level, stages, replies, 10 + n, last, 0);
    lemma_creation_step_at(level, stages, replies, 10 + n, last, 1);
    lemma_creation_step_at(level, stages, replies, 10 + n, last, 2);
    lemma_creation_step_at(level, stages, replies, 10 + n, last, 3);
}

} // verus!
