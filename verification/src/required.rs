//! The parameters that the key store adds to those of the caller before a device makes a key.

use vstd::prelude::*;
use crate::level::KeystoreSecurityLevel;
use crate::lists::{
    decides, has_public_key, holds, lacks, law_public_keys_get_their_defaults,
    law_tags_are_found_wherever_they_stand,
};
use crate::params::{
    add_asymmetric_defaults, add_parameter, asymmetric_defaults, contains_tag, contains_tag_among,
    default_cert_subject, has_tag, has_tag_among, law_defaults_are_added_once, lemma_tags_of_sum,
    only_if,
};
use crate::request::{ClockReading, Reply, Request};
use crate::types::{
    model, Algorithm, AppUid, Error, Handle, KeyDescriptor, KeyParameter, KeyParameterValue,
    KeyPerm, Param, ParamValue, ResponseCode, Tag,
};

verus! {

/// The first interface version that takes the date of creation from the key store.
pub const CREATION_DATETIME_SINCE: i32 = 100;

/// The parameters of the caller, those that were added so far, and the one clock reading that
/// stands for "now" throughout.
pub struct Partial {
    pub uid: AppUid,
    pub params: Vec<KeyParameter>,
    pub added: Vec<KeyParameter>,
    pub now: Handle,
}

/// The completion of a list of parameters.
pub enum AddRequired {
    /// What time is it?
    Clock { uid: AppUid, params: Vec<KeyParameter> },
    /// Which apps is the attestation for?
    Aaid(Partial),
    /// May the caller have unique ids with this key?
    UniqueIdKey(Partial),
    /// Or may it attest unique ids at all?
    UniqueIdAttestation(Partial),
    /// Was the device reset since unique ids rotated?
    FactoryReset(Partial),
    /// May the caller attest device identifiers?
    DeviceIds(Partial),
    Done(Result<Vec<KeyParameter>, Error>),
}

/// The model of `Partial`.
pub struct Progress {
    pub uid: AppUid,
    pub params: Seq<Param>,
    pub added: Seq<Param>,
    pub now: Handle,
}

/// The model of `AddRequired`.
pub enum Completion {
    Clock { uid: AppUid, params: Seq<Param> },
    Aaid(Progress),
    UniqueIdKey(Progress),
    UniqueIdAttestation(Progress),
    FactoryReset(Progress),
    DeviceIds(Progress),
    Done(Result<Seq<Param>, Error>),
}

impl View for Partial {
    type V = Progress;

    open spec fn view(&self) -> Progress {
        Progress {
            uid: self.uid,
            params: model(self.params@),
            added: model(self.added@),
            now: self.now,
        }
    }
}

impl View for AddRequired {
    type V = Completion;

    open spec fn view(&self) -> Completion {
        match *self {
            AddRequired::Clock { uid, params } => Completion::Clock { uid, params: model(params@) },
            AddRequired::Aaid(p) => Completion::Aaid(p@),
            AddRequired::UniqueIdKey(p) => Completion::UniqueIdKey(p@),
            AddRequired::UniqueIdAttestation(p) => Completion::UniqueIdAttestation(p@),
            AddRequired::FactoryReset(p) => Completion::FactoryReset(p@),
            AddRequired::DeviceIds(p) => Completion::DeviceIds(p@),
            AddRequired::Done(Ok(params)) => Completion::Done(Ok(model(params@))),
            AddRequired::Done(Err(e)) => Completion::Done(Err(e)),
        }
    }
}

impl Progress {
    /// The same with one more parameter added.
    pub open spec fn plus(self, tag: Tag, value: ParamValue) -> Progress {
        Progress { added: self.added.push(Param { tag, value }), ..self }
    }
}

/// The date of creation as a parameter value, from a clock reading.
pub open spec fn creation_datetime(millis: Option<u128>) -> Result<i64, Error> {
    match millis {
        None => Err(Error::ClockBeforeEpoch),
        Some(m) => if m <= i64::MAX {
            Ok(m as i64)
        } else {
            Err(Error::ClockOutOfRange)
        },
    }
}

impl Completion {
    /// The completion of these parameters, at its start. The caller may not give the date of
    /// creation.
    pub open spec fn of(uid: AppUid, params: Seq<Param>) -> Completion {
        if has_tag(params, Tag::CreationDatetime) {
            Completion::Done(Err(Error::Rc(ResponseCode::InvalidArgument)))
        } else {
            Completion::Clock { uid, params }
        }
    }

    /// Once the date is settled: an attestation needs to know for which apps it is.
    pub open spec fn with_date(level: KeystoreSecurityLevel, p: Progress) -> Completion {
        if has_tag(p.params, Tag::AttestationChallenge) {
            Completion::Aaid(p)
        } else {
            Completion::with_aaid(level, p)
        }
    }

    /// Once the apps are settled: a unique id needs a permission.
    pub open spec fn with_aaid(level: KeystoreSecurityLevel, p: Progress) -> Completion {
        if has_tag(p.params, Tag::IncludeUniqueId) {
            Completion::UniqueIdKey(p)
        } else {
            Completion::with_unique_id(level, p)
        }
    }

    /// Once the unique id is settled: device identifiers need a permission.
    pub open spec fn with_unique_id(level: KeystoreSecurityLevel, p: Progress) -> Completion {
        if has_tag_among(p.params, level.rules.device_id_tags@) {
            Completion::DeviceIds(p)
        } else {
            Completion::whole(level, p)
        }
    }

    /// The whole list: what the caller gave, what was added, and the defaults for an
    /// asymmetric key.
    pub open spec fn whole(level: KeystoreSecurityLevel, p: Progress) -> Completion {
        Completion::Done(
            Ok(
                p.params + p.added + asymmetric_defaults(
                    p.params,
                    level.rules.undefined_not_after,
                ),
            ),
        )
    }

    /// Where the completion stands after a reply.
    pub open spec fn after(self, level: KeystoreSecurityLevel, reply: Reply) -> Completion {
        match (self, reply) {
            (Completion::Clock { uid, params }, Reply::Clock(reading)) => {
                let p = Progress { uid, params, added: seq![], now: reading.now };
                if level.hw_info.version_number < CREATION_DATETIME_SINCE {
                    Completion::with_date(level, p)
                } else {
                    match creation_datetime(reading.millis_since_epoch) {
                        Ok(t) => Completion::with_date(
                            level,
                            p.plus(Tag::CreationDatetime, ParamValue::DateTime(t)),
                        ),
                        Err(e) => Completion::Done(Err(e)),
                    }
                }
            },
            (Completion::Aaid(p), Reply::Aaid(Ok(aaid))) => Completion::with_aaid(
                level,
                p.plus(Tag::AttestationApplicationId, ParamValue::Blob(aaid@)),
            ),
            (Completion::Aaid(_), Reply::Aaid(Err(status))) => Completion::Done(
                Err(
                    if status == level.rules.aaid_failed_status {
                        Error::Rc(ResponseCode::GetAttestationApplicationIdFailed)
                    } else {
                        Error::AaidStatus(status)
                    },
                ),
            ),
            (Completion::UniqueIdKey(p), Reply::Status(r)) => if r is Ok {
                Completion::FactoryReset(p)
            } else {
                Completion::UniqueIdAttestation(p)
            },
            (Completion::UniqueIdAttestation(p), Reply::Status(r)) => if r is Ok {
                Completion::FactoryReset(p)
            } else {
                Completion::Done(Err(Error::Rc(ResponseCode::PermissionDenied)))
            },
            (Completion::FactoryReset(p), Reply::Decision(Ok(reset))) => Completion::with_unique_id(
                level,
                if reset {
                    p.plus(Tag::ResetSinceIdRotation, ParamValue::BoolValue(true))
                } else {
                    p
                },
            ),
            (Completion::FactoryReset(_), Reply::Decision(Err(e))) => Completion::Done(Err(e)),
            (Completion::DeviceIds(p), Reply::Status(Ok(()))) => Completion::whole(level, p),
            (Completion::DeviceIds(_), Reply::Status(Err(e))) => Completion::Done(Err(e)),
            _ => self,
        }
    }

    /// What the completion waits for, for the new key `key`.
    pub open spec fn asks<'a>(self, key: &'a KeyDescriptor) -> Request<'a> {
        match self {
            Completion::Clock { .. } => Request::Clock,
            Completion::Aaid(p) => Request::AttestationApplicationId { uid: p.uid.0 as u32 },
            Completion::UniqueIdKey(_) => Request::CheckKeyPermission {
                perm: KeyPerm::GenUniqueId,
                key,
                access: None,
            },
            Completion::UniqueIdAttestation(_) => Request::CheckUniqueIdAttestationPermission,
            Completion::FactoryReset(p) => Request::HadFactoryResetSinceIdRotation { now: p.now },
            Completion::DeviceIds(_) => Request::CheckDeviceAttestationPermission,
            Completion::Done(_) => Request::Nothing,
        }
    }
}

impl KeystoreSecurityLevel {
    /// Starts the completion of the parameters of a new key.
    pub fn add_required_parameters(&self, uid: AppUid, params: Vec<KeyParameter>) -> (r:
        AddRequired)
        ensures
            r@ == Completion::of(uid, model(params@)),
    {
        if contains_tag(params.as_slice(), Tag::CreationDatetime) {
            AddRequired::Done(Err(Error::Rc(ResponseCode::InvalidArgument)))
        } else {
            AddRequired::Clock { uid, params }
        }
    }

    fn with_clock(&self, uid: AppUid, params: Vec<KeyParameter>, reading: ClockReading) -> (r:
        AddRequired)
        ensures
            r@ == (Completion::Clock { uid, params: model(params@) }).after(
                *self,
                Reply::Clock(reading),
            ),
    {
        let mut added: Vec<KeyParameter> = Vec::new();
        assert(model(added@) =~= seq![]);
        if self.hw_info.version_number >= CREATION_DATETIME_SINCE {
            let millis: u128 = match reading.millis_since_epoch {
                Some(millis) => millis,
                None => return AddRequired::Done(Err(Error::ClockBeforeEpoch)),
            };
            if millis > i64::MAX as u128 {
                return AddRequired::Done(Err(Error::ClockOutOfRange));
            }
            add_parameter(
                &mut added,
                Tag::CreationDatetime,
                KeyParameterValue::DateTime(millis as i64),
            );
        }
        let p = Partial { uid, params, added, now: reading.now };
        if contains_tag(p.params.as_slice(), Tag::AttestationChallenge) {
            AddRequired::Aaid(p)
        } else {
            self.with_aaid(p)
        }
    }

    fn with_aaid(&self, p: Partial) -> (r: AddRequired)
        ensures
            r@ == Completion::with_aaid(*self, p@),
    {
        if contains_tag(p.params.as_slice(), Tag::IncludeUniqueId) {
            AddRequired::UniqueIdKey(p)
        } else {
            self.with_unique_id(p)
        }
    }

    fn with_unique_id(&self, p: Partial) -> (r: AddRequired)
        ensures
            r@ == Completion::with_unique_id(*self, p@),
    {
        if contains_tag_among(p.params.as_slice(), self.rules.device_id_tags.as_slice()) {
            AddRequired::DeviceIds(p)
        } else {
            self.whole(p)
        }
    }

    fn whole(&self, p: Partial) -> (r: AddRequired)
        ensures
            r@ == Completion::whole(*self, p@),
    {
        let ghost given = p@;
        let mut params = p.params;
        let mut added = p.added;
        add_asymmetric_defaults(params.as_slice(), self.rules.undefined_not_after, &mut added);
        let ghost more = added@;
        params.append(&mut added);
        proof {
            assert(model(params@) =~= given.params + model(more));
            assert(model(params@) =~= given.params + given.added + asymmetric_defaults(
                given.params,
                self.rules.undefined_not_after,
            ));
        }
        AddRequired::Done(Ok(params))
    }
}

impl AddRequired {
    /// What the completion waits for, for the new key `key`.
    pub fn pending<'a>(&self, key: &'a KeyDescriptor) -> (r: Request<'a>)
        ensures
            r == self@.asks(key),
    {
        match self {
            AddRequired::Clock { .. } => Request::Clock,
            AddRequired::Aaid(p) => Request::AttestationApplicationId {
                uid: #[verifier::truncate] (p.uid.0 as u32),
            },
            AddRequired::UniqueIdKey(_) => Request::CheckKeyPermission {
                perm: KeyPerm::GenUniqueId,
                key,
                access: None,
            },
            AddRequired::UniqueIdAttestation(_) => Request::CheckUniqueIdAttestationPermission,
            AddRequired::FactoryReset(p) => Request::HadFactoryResetSinceIdRotation { now: p.now },
            AddRequired::DeviceIds(_) => Request::CheckDeviceAttestationPermission,
            AddRequired::Done(_) => Request::Nothing,
        }
    }

    /// Goes on from a reply.
    pub fn resume(self, level: &KeystoreSecurityLevel, reply: Reply) -> (r: AddRequired)
        ensures
            r@ == self@.after(*level, reply),
    {
        match self {
            AddRequired::Clock { uid, params } => match reply {
                Reply::Clock(reading) => level.with_clock(uid, params, reading),
                _ => AddRequired::Clock { uid, params },
            },
            AddRequired::Aaid(p) => match reply {
                Reply::Aaid(Ok(aaid)) => {
                    let mut p = p;
                    add_parameter(
                        &mut p.added,
                        Tag::AttestationApplicationId,
                        KeyParameterValue::Blob(aaid),
                    );
                    level.with_aaid(p)
                },
                Reply::Aaid(Err(status)) => if status == level.rules.aaid_failed_status {
                    AddRequired::Done(
                        Err(Error::Rc(ResponseCode::GetAttestationApplicationIdFailed)),
                    )
                } else {
                    AddRequired::Done(Err(Error::AaidStatus(status)))
                },
                _ => AddRequired::Aaid(p),
            },
            AddRequired::UniqueIdKey(p) => match reply {
                Reply::Status(Ok(())) => AddRequired::FactoryReset(p),
                Reply::Status(Err(_)) => AddRequired::UniqueIdAttestation(p),
                _ => AddRequired::UniqueIdKey(p),
            },
            AddRequired::UniqueIdAttestation(p) => match reply {
                Reply::Status(Ok(())) => AddRequired::FactoryReset(p),
                Reply::Status(Err(_)) => AddRequired::Done(Err(Error::perm())),
                _ => AddRequired::UniqueIdAttestation(p),
            },
            AddRequired::FactoryReset(p) => match reply {
                Reply::Decision(Ok(reset)) => {
                    let mut p = p;
                    if reset {
                        add_parameter(
                            &mut p.added,
                            Tag::ResetSinceIdRotation,
                            KeyParameterValue::BoolValue(true),
                        );
                    }
                    level.with_unique_id(p)
                },
                Reply::Decision(Err(e)) => AddRequired::Done(Err(e)),
                _ => AddRequired::FactoryReset(p),
            },
            AddRequired::DeviceIds(p) => match reply {
                Reply::Status(Ok(())) => level.whole(p),
                Reply::Status(Err(e)) => AddRequired::Done(Err(e)),
                _ => AddRequired::DeviceIds(p),
            },
            AddRequired::Done(r) => AddRequired::Done(r),
        }
    }
}

// ---------------------------------------------------------------------------------------
// Laws
// ---------------------------------------------------------------------------------------
impl Completion {
    /// Where the completion stands after these replies.
    pub open spec fn run(self, level: KeystoreSecurityLevel, replies: Seq<Reply>) -> Completion
        decreases replies.len(),
    {
        if replies.len() == 0 {
            self
        } else {
            self.run(level, replies.drop_last()).after(level, replies.last())
        }
    }
}

/// The whole list: the parameters of the caller come first and as they were; the date follows
/// where the device takes it, the id of the apps where there is a challenge, the note of a reset
/// where a unique id was asked for, and then the defaults.
pub open spec fn completed_list(
    level: KeystoreSecurityLevel,
    ps: Seq<Param>,
    millis: u128,
    aaid: Seq<u8>,
    reset: bool,
) -> Seq<Param> {
    ps + (only_if(
        level.hw_info.version_number >= CREATION_DATETIME_SINCE,
        Tag::CreationDatetime,
        ParamValue::DateTime(millis as i64),
    ) + only_if(
        has_tag(ps, Tag::AttestationChallenge),
        Tag::AttestationApplicationId,
        ParamValue::Blob(aaid),
    ) + only_if(
        reset && has_tag(ps, Tag::IncludeUniqueId),
        Tag::ResetSinceIdRotation,
        ParamValue::BoolValue(true),
    )) + asymmetric_defaults(ps, level.rules.undefined_not_after)
}

/// What the services answered so far for the completion of parameters: the clock reading, the
/// id of the apps, and whether the device was reset.
pub struct Answers {
    pub clock: Option<ClockReading>,
    pub aaid: Option<Seq<u8>>,
    pub reset: Option<bool>,
}

impl Answers {
    /// Nothing was answered yet.
    pub open spec fn none() -> Answers {
        Answers { clock: None, aaid: None, reset: None }
    }

    /// The answers, after this request was answered by this reply.
    pub open spec fn heard(self, request: Request, reply: Reply) -> Answers {
        match (request, reply) {
            (Request::Clock, Reply::Clock(reading)) => Answers { clock: Some(reading), ..self },
            (Request::AttestationApplicationId { .. }, Reply::Aaid(Ok(aaid))) => Answers {
                aaid: Some(aaid@),
                ..self
            },
            (Request::HadFactoryResetSinceIdRotation { .. }, Reply::Decision(Ok(reset))) => {
                Answers { reset: Some(reset), ..self }
            },
            _ => self,
        }
    }

    /// Every answer that these parameters need is there: a date where the device takes one, the
    /// id of the apps for a challenge, and whether there was a reset for a unique id.
    pub open spec fn suffice(self, level: KeystoreSecurityLevel, ps: Seq<Param>) -> bool {
        &&& level.hw_info.version_number >= CREATION_DATETIME_SINCE ==> self.are_dated()
        &&& has_tag(ps, Tag::AttestationChallenge) ==> self.aaid is Some
        &&& has_tag(ps, Tag::IncludeUniqueId) ==> self.reset is Some
    }

    /// The clock reading can be the date of a key.
    pub open spec fn are_dated(self) -> bool {
        self.clock is Some && creation_datetime(self.clock->0.millis_since_epoch) is Ok
    }

    /// The whole list that follows from these answers.
    pub open spec fn whole(self, level: KeystoreSecurityLevel, ps: Seq<Param>) -> Seq<Param> {
        completed_list(
            level,
            ps,
            self.clock->0.millis_since_epoch->0,
            self.aaid->0,
            self.reset->0,
        )
    }

    /// What is added once the date is settled.
    spec fn dated(self, level: KeystoreSecurityLevel) -> Seq<Param> {
        only_if(
            level.hw_info.version_number >= CREATION_DATETIME_SINCE,
            Tag::CreationDatetime,
            ParamValue::DateTime(self.clock->0.millis_since_epoch->0 as i64),
        )
    }

    /// What is added once the apps are settled.
    spec fn identified(self, level: KeystoreSecurityLevel, ps: Seq<Param>) -> Seq<Param> {
        self.dated(level) + only_if(
            has_tag(ps, Tag::AttestationChallenge),
            Tag::AttestationApplicationId,
            ParamValue::Blob(self.aaid->0),
        )
    }

    /// What is added once the unique id is settled.
    spec fn settled(self, level: KeystoreSecurityLevel, ps: Seq<Param>) -> Seq<Param> {
        self.identified(level, ps) + only_if(
            self.reset->0 && has_tag(ps, Tag::IncludeUniqueId),
            Tag::ResetSinceIdRotation,
            ParamValue::BoolValue(true),
        )
    }
}

impl Completion {
    /// What the services answered in a run of the completion for the new key `key`.
    pub open spec fn answers(
        self,
        level: KeystoreSecurityLevel,
        key: KeyDescriptor,
        replies: Seq<Reply>,
    ) -> Answers
        decreases replies.len(),
    {
        if replies.len() == 0 {
            Answers::none()
        } else {
            let earlier = replies.drop_last();
            self.answers(level, key, earlier).heard(
                self.run(level, earlier).asks(&key),
                replies.last(),
            )
        }
    }
}

/// The parameters are those of the caller, and the clock was read.
spec fn under_way(
    level: KeystoreSecurityLevel,
    uid: AppUid,
    ps: Seq<Param>,
    answers: Answers,
    p: Progress,
) -> bool {
    &&& p.uid == uid
    &&& p.params == ps
    &&& answers.clock is Some
    &&& p.now == answers.clock->0.now
    &&& level.hw_info.version_number >= CREATION_DATETIME_SINCE ==> answers.are_dated()
}

/// What holds at every stage of the completion of `ps`, with what was answered so far.
pub closed spec fn on_course(
    level: KeystoreSecurityLevel,
    uid: AppUid,
    ps: Seq<Param>,
    answers: Answers,
    c: Completion,
) -> bool {
    &&& !has_tag(ps, Tag::CreationDatetime) || c is Done && c->Done_0 is Err
    &&& match c {
        Completion::Clock { uid: u, params } => u == uid && params == ps,
        Completion::Aaid(p) => {
            &&& under_way(level, uid, ps, answers, p)
            &&& p.added == answers.dated(level)
            &&& has_tag(ps, Tag::AttestationChallenge)
        },
        Completion::UniqueIdKey(p)
        | Completion::UniqueIdAttestation(p)
        | Completion::FactoryReset(p) => {
            &&& under_way(level, uid, ps, answers, p)
            &&& p.added == answers.identified(level, ps)
            &&& has_tag(ps, Tag::AttestationChallenge) ==> answers.aaid is Some
            &&& has_tag(ps, Tag::IncludeUniqueId)
        },
        Completion::DeviceIds(p) => {
            &&& under_way(level, uid, ps, answers, p)
            &&& p.added == answers.settled(level, ps)
            &&& answers.suffice(level, ps)
            &&& has_tag_among(ps, level.rules.device_id_tags@)
        },
        Completion::Done(Ok(whole)) => {
            answers.suffice(level, ps) && whole == answers.whole(level, ps)
        },
        Completion::Done(Err(_)) => true,
    }
}

proof fn lemma_with_unique_id_on_course(
    level: KeystoreSecurityLevel,
    uid: AppUid,
    ps: Seq<Param>,
    answers: Answers,
    p: Progress,
)
    requires
        !has_tag(ps, Tag::CreationDatetime),
        under_way(level, uid, ps, answers, p),
        p.added == answers.settled(level, ps),
        answers.suffice(level, ps),
    ensures
        on_course(level, uid, ps, answers, Completion::with_unique_id(level, p)),
        on_course(level, uid, ps, answers, Completion::whole(level, p)),
{
    assert(p.params + p.added + asymmetric_defaults(p.params, level.rules.undefined_not_after)
        =~= answers.whole(level, ps));
}

proof fn lemma_with_aaid_on_course(
    level: KeystoreSecurityLevel,
    uid: AppUid,
    ps: Seq<Param>,
    answers: Answers,
    p: Progress,
)
    requires
        !has_tag(ps, Tag::CreationDatetime),
        under_way(level, uid, ps, answers, p),
        p.added == answers.identified(level, ps),
        has_tag(ps, Tag::AttestationChallenge) ==> answers.aaid is Some,
    ensures
        on_course(level, uid, ps, answers, Completion::with_aaid(level, p)),
{
    if !has_tag(ps, Tag::IncludeUniqueId) {
        assert(p.added =~= answers.settled(level, ps));
        lemma_with_unique_id_on_course(level, uid, ps, answers, p);
    }
}

proof fn lemma_with_date_on_course(
    level: KeystoreSecurityLevel,
    uid: AppUid,
    ps: Seq<Param>,
    answers: Answers,
    p: Progress,
)
    requires
        !has_tag(ps, Tag::CreationDatetime),
        under_way(level, uid, ps, answers, p),
        p.added == answers.dated(level),
    ensures
        on_course(level, uid, ps, answers, Completion::with_date(level, p)),
{
    if !has_tag(ps, Tag::AttestationChallenge) {
        assert(p.added =~= answers.identified(level, ps));
        lemma_with_aaid_on_course(level, uid, ps, answers, p);
    }
}

/// One step of the completion of `ps` keeps it on course.
pub proof fn lemma_step_on_course(
    level: KeystoreSecurityLevel,
    uid: AppUid,
    ps: Seq<Param>,
    answers: Answers,
    c: Completion,
    key: KeyDescriptor,
    reply: Reply,
)
    requires
        on_course(level, uid, ps, answers, c),
    ensures
        on_course(level, uid, ps, answers.heard(c.asks(&key), reply), c.after(level, reply)),
{
    let heard = answers.heard(c.asks(&key), reply);
    match (c, reply) {
        (Completion::Clock { .. }, Reply::Clock(reading)) => {
            let p = Progress { uid, params: ps, added: seq![], now: reading.now };
            if level.hw_info.version_number < CREATION_DATETIME_SINCE {
                lemma_with_date_on_course(level, uid, ps, heard, p);
            } else {
                match creation_datetime(reading.millis_since_epoch) {
                    Ok(t) => {
                        let q = p.plus(Tag::CreationDatetime, ParamValue::DateTime(t));
                        assert(q.added =~= heard.dated(level));
                        lemma_with_date_on_course(level, uid, ps, heard, q);
                    },
                    Err(_) => {},
                }
            }
        },
        (Completion::Aaid(p), Reply::Aaid(Ok(aaid))) => {
            let q = p.plus(Tag::AttestationApplicationId, ParamValue::Blob(aaid@));
            assert(q.added =~= heard.identified(level, ps));
            lemma_with_aaid_on_course(level, uid, ps, heard, q);
        },
        (Completion::FactoryReset(p), Reply::Decision(Ok(reset))) => {
            let q = if reset {
                p.plus(Tag::ResetSinceIdRotation, ParamValue::BoolValue(true))
            } else {
                p
            };
            assert(q.added =~= heard.settled(level, ps));
            lemma_with_unique_id_on_course(level, uid, ps, heard, q);
        },
        (Completion::DeviceIds(p), Reply::Status(Ok(()))) => {
            lemma_with_unique_id_on_course(level, uid, ps, answers, p);
        },
        _ => {},
    }
}

proof fn lemma_run_on_course(
    level: KeystoreSecurityLevel,
    uid: AppUid,
    ps: Seq<Param>,
    key: KeyDescriptor,
    replies: Seq<Reply>,
)
    ensures
        on_course(
            level,
            uid,
            ps,
            Completion::of(uid, ps).answers(level, key, replies),
            Completion::of(uid, ps).run(level, replies),
        ),
    decreases replies.len(),
{
    if replies.len() > 0 {
        let earlier = replies.drop_last();
        lemma_run_on_course(level, uid, ps, key, earlier);
        lemma_step_on_course(
            level,
            uid,
            ps,
            Completion::of(uid, ps).answers(level, key, earlier),
            Completion::of(uid, ps).run(level, earlier),
            key,
            replies.last(),
        );
    }
}

/// Whatever the services answer, a list that is completed is the whole list that follows from
/// their answers, all of which were given; and it began without a date of creation.
pub proof fn law_completed_list_is_whole(
    level: KeystoreSecurityLevel,
    uid: AppUid,
    ps: Seq<Param>,
    key: KeyDescriptor,
    replies: Seq<Reply>,
    whole: Seq<Param>,
)
    requires
        Completion::of(uid, ps).run(level, replies) == Completion::Done(Ok(whole)),
    ensures
        Completion::of(uid, ps).answers(level, key, replies).suffice(level, ps),
        whole == Completion::of(uid, ps).answers(level, key, replies).whole(level, ps),
        !has_tag(ps, Tag::CreationDatetime),
{
    lemma_run_on_course(level, uid, ps, key, replies);
}

/// What a completed list adds to the parameters of the caller, before the defaults: the time of
/// the clock reading as the date of creation, from interface version 100 on; the id of the apps,
/// where there is a challenge; and the note of a reset, where a unique id was asked for and the
/// device was reset. Nothing else is added, and these in this order.
pub proof fn law_completed_list_adds_just_this(
    level: KeystoreSecurityLevel,
    uid: AppUid,
    ps: Seq<Param>,
    key: KeyDescriptor,
    replies: Seq<Reply>,
    whole: Seq<Param>,
)
    requires
        Completion::of(uid, ps).run(level, replies) == Completion::Done(Ok(whole)),
    ensures
        ({
            let heard = Completion::of(uid, ps).answers(level, key, replies);
            let defaults = asymmetric_defaults(ps, level.rules.undefined_not_after);
            let n = whole.len() - defaults.len();
            &&& ps.len() <= n
            &&& whole.subrange(0, ps.len() as int) == ps
            &&& whole.subrange(n, whole.len() as int) == defaults
            &&& is_just_added(level, ps, heard, whole.subrange(ps.len() as int, n))
        }),
{
    law_completed_list_is_whole(level, uid, ps, key, replies, whole);
    let heard = Completion::of(uid, ps).answers(level, key, replies);
    law_answers_come_to_a_completed_list(level, ps, heard);
}

/// The completed list of a key whose first algorithm has a public key has a subject and the bounds
/// of the validity of a certificate, and that of an RSA key has a public exponent: as the caller
/// gave them, or else the default ones. What else the caller gave does not matter to these.
pub proof fn law_completed_lists_have_the_defaults(
    level: KeystoreSecurityLevel,
    uid: AppUid,
    ps: Seq<Param>,
    key: KeyDescriptor,
    replies: Seq<Reply>,
    whole: Seq<Param>,
    i: int,
)
    requires
        Completion::of(uid, ps).run(level, replies) == Completion::Done(Ok(whole)),
        decides(ps, i, Tag::Algorithm),
        has_public_key(ps[i].value),
    ensures
        whole.len() >= ps.len() && whole.subrange(0, ps.len() as int) == ps,
        lacks(ps, Tag::CertificateSubject) ==> holds(
            whole,
            Tag::CertificateSubject,
            ParamValue::Blob(default_cert_subject()),
        ),
        lacks(ps, Tag::CertificateNotBefore) ==> holds(
            whole,
            Tag::CertificateNotBefore,
            ParamValue::DateTime(0),
        ),
        lacks(ps, Tag::CertificateNotAfter) ==> holds(
            whole,
            Tag::CertificateNotAfter,
            ParamValue::DateTime(level.rules.undefined_not_after),
        ),
        lacks(ps, Tag::RsaPublicExponent) && ps[i].value == ParamValue::Algorithm(Algorithm::Rsa)
            ==> holds(whole, Tag::RsaPublicExponent, ParamValue::LongInteger(65537)),
        !lacks(whole, Tag::CertificateSubject),
        !lacks(whole, Tag::CertificateNotBefore),
        !lacks(whole, Tag::CertificateNotAfter),
        ps[i].value == ParamValue::Algorithm(Algorithm::Rsa) ==> !lacks(
            whole,
            Tag::RsaPublicExponent,
        ),
{
    let end = level.rules.undefined_not_after;
    let defaults = asymmetric_defaults(ps, end);
    law_completed_list_adds_just_this(level, uid, ps, key, replies, whole);
    law_public_keys_get_their_defaults(ps, i, end);
    let subject = ParamValue::Blob(default_cert_subject());
    lemma_parts_hold(whole, ps, defaults, Tag::CertificateSubject, subject);
    lemma_parts_hold(whole, ps, defaults, Tag::CertificateNotBefore, ParamValue::DateTime(0));
    lemma_parts_hold(whole, ps, defaults, Tag::CertificateNotAfter, ParamValue::DateTime(end));
    lemma_parts_hold(
        whole,
        ps,
        defaults,
        Tag::RsaPublicExponent,
        ParamValue::LongInteger(65537),
    );
    if ps[i].value == ParamValue::Algorithm(Algorithm::Rsa) {
        assert(ps[i] == (Param {
            tag: Tag::Algorithm,
            value: ParamValue::Algorithm(Algorithm::Rsa),
        }));
    }
}

/// What the end of a list holds, the list holds, and what its beginning does not lack, it does not
/// lack.
proof fn lemma_parts_hold(
    whole: Seq<Param>,
    ps: Seq<Param>,
    defaults: Seq<Param>,
    tag: Tag,
    value: ParamValue,
)
    requires
        ps.len() + defaults.len() <= whole.len(),
        whole.subrange(0, ps.len() as int) == ps,
        whole.subrange(whole.len() - defaults.len(), whole.len() as int) == defaults,
    ensures
        holds(defaults, tag, value) ==> holds(whole, tag, value) && !lacks(whole, tag),
        !lacks(ps, tag) ==> !lacks(whole, tag),
{
    if holds(defaults, tag, value) {
        let k = choose|k: int|
            0 <= k < defaults.len() && #[trigger] defaults[k] == (Param { tag, value });
        assert(whole[whole.len() - defaults.len() + k] == defaults[k]);
    }
    if !lacks(ps, tag) {
        let k = choose|k: int| 0 <= k < ps.len() && (#[trigger] ps[k]).tag == tag;
        assert(whole[k] == ps[k]);
    }
}

/// These are the parameters that follow from what was heard.
pub open spec fn is_just_added(
    level: KeystoreSecurityLevel,
    ps: Seq<Param>,
    heard: Answers,
    added: Seq<Param>,
) -> bool {
    let dated = level.hw_info.version_number >= 100;
    let challenged = !lacks(ps, Tag::AttestationChallenge);
    let reset = !lacks(ps, Tag::IncludeUniqueId) && heard.reset == Some(true);
    let a: int = if dated { 1 } else { 0 };
    let b: int = if challenged { 1 } else { 0 };
    let c: int = if reset { 1 } else { 0 };
    &&& added.len() == a + b + c
    &&& dated ==> {
        &&& added[0].tag == Tag::CreationDatetime
        &&& added[0].value matches ParamValue::DateTime(millis)
        &&& heard.clock is Some && heard.clock->0.millis_since_epoch is Some
        &&& millis == heard.clock->0.millis_since_epoch->0
    }
    &&& challenged ==> {
        &&& heard.aaid is Some
        &&& added[a] == (Param {
            tag: Tag::AttestationApplicationId,
            value: ParamValue::Blob(heard.aaid->0),
        })
    }
    &&& !lacks(ps, Tag::IncludeUniqueId) ==> heard.reset is Some
    &&& reset ==> added[a + b] == (Param {
        tag: Tag::ResetSinceIdRotation,
        value: ParamValue::BoolValue(true),
    })
}

/// What the answers come to is a list that adds just what was heard, and the defaults.
pub proof fn law_answers_come_to_a_completed_list(
    level: KeystoreSecurityLevel,
    ps: Seq<Param>,
    heard: Answers,
)
    requires
        heard.suffice(level, ps),
    ensures
        ({
            let whole = heard.whole(level, ps);
            let defaults = asymmetric_defaults(ps, level.rules.undefined_not_after);
            let n = whole.len() - defaults.len();
            &&& ps.len() <= n
            &&& whole.subrange(0, ps.len() as int) == ps
            &&& whole.subrange(n, whole.len() as int) == defaults
            &&& is_just_added(level, ps, heard, whole.subrange(ps.len() as int, n))
        }),
{
    let whole = heard.whole(level, ps);
    let defaults = asymmetric_defaults(ps, level.rules.undefined_not_after);
    let n = whole.len() - defaults.len();
    assert(whole.subrange(0, ps.len() as int) =~= ps);
    assert(whole.subrange(n, whole.len() as int) =~= defaults);
    assert(whole.subrange(ps.len() as int, n) =~= heard.settled(level, ps));
    assert(has_tag(ps, Tag::AttestationChallenge) <==> !lacks(ps, Tag::AttestationChallenge));
    assert(has_tag(ps, Tag::IncludeUniqueId) <==> !lacks(ps, Tag::IncludeUniqueId));
}

/// Next the completion asks for the id of the apps, if that is due, else for the permission to
/// have unique ids with this key, else for that to attest device identifiers, each if it is due;
/// and else it is done.
pub open spec fn asks_in_turn(
    next: Completion,
    key: KeyDescriptor,
    uid: AppUid,
    aaid: bool,
    unique_id: bool,
    device_ids: bool,
) -> bool {
    if aaid {
        next.asks(&key) == (Request::AttestationApplicationId { uid: uid.0 as u32 })
    } else if unique_id {
        next.asks(&key) == (Request::CheckKeyPermission {
            perm: KeyPerm::GenUniqueId,
            key: &key,
            access: None,
        })
    } else if device_ids {
        next.asks(&key) == Request::CheckDeviceAttestationPermission
    } else {
        next matches Completion::Done(Ok(_))
    }
}

/// One turn of the completion: what follows this request and this reply. A device that takes the
/// date needs a reading that can be one. Then the id of the apps is asked for where there is a
/// challenge, the permission for unique ids where one is asked for, and the permission for device
/// identifiers where one is; and the list is done. A failure on the way is the answer. The
/// permission for unique ids may be that for this key or the general one, and a reset is asked
/// about as of the reading.
pub open spec fn completion_turn(
    level: KeystoreSecurityLevel,
    uid: AppUid,
    ps: Seq<Param>,
    key: KeyDescriptor,
    clock: Option<ClockReading>,
    c: Completion,
    reply: Reply,
    next: Completion,
) -> bool {
    let challenged = !lacks(ps, Tag::AttestationChallenge);
    let unique = !lacks(ps, Tag::IncludeUniqueId);
    let ids = exists|i: int, j: int|
        0 <= i < ps.len() && 0 <= j < level.rules.device_id_tags@.len() && (
        #[trigger] ps[i]).tag == #[trigger] level.rules.device_id_tags@[j];
    let dated = level.hw_info.version_number >= 100;
    match (c.asks(&key), reply) {
        (Request::Clock, Reply::Clock(reading)) => match reading.millis_since_epoch {
            None if dated => next == Completion::Done(Err(Error::ClockBeforeEpoch)),
            Some(millis) if dated && millis > 0x7fff_ffff_ffff_ffff => next == Completion::Done(
                Err(Error::ClockOutOfRange),
            ),
            _ => asks_in_turn(next, key, uid, challenged, unique, ids),
        },
        (Request::AttestationApplicationId { .. }, Reply::Aaid(Ok(_))) => asks_in_turn(
            next,
            key,
            uid,
            false,
            unique,
            ids,
        ),
        (Request::AttestationApplicationId { .. }, Reply::Aaid(Err(status))) => next
            == Completion::Done(
            Err(
                if status == level.rules.aaid_failed_status {
                    Error::Rc(ResponseCode::GetAttestationApplicationIdFailed)
                } else {
                    Error::AaidStatus(status)
                },
            ),
        ),
        (Request::CheckKeyPermission { .. }, Reply::Status(Ok(_))) => {
            &&& next.asks(&key) matches Request::HadFactoryResetSinceIdRotation { now }
            &&& clock is Some && now == clock->0.now
        },
        (Request::CheckKeyPermission { .. }, Reply::Status(Err(_))) => next.asks(&key)
            == Request::CheckUniqueIdAttestationPermission,
        (Request::CheckUniqueIdAttestationPermission, Reply::Status(Ok(_))) => {
            &&& next.asks(&key) matches Request::HadFactoryResetSinceIdRotation { now }
            &&& clock is Some && now == clock->0.now
        },
        (Request::CheckUniqueIdAttestationPermission, Reply::Status(Err(_))) => next
            == Completion::Done(Err(Error::Rc(ResponseCode::PermissionDenied))),
        (Request::HadFactoryResetSinceIdRotation { .. }, Reply::Decision(Ok(_))) => asks_in_turn(
            next,
            key,
            uid,
            false,
            false,
            ids,
        ),
        (Request::HadFactoryResetSinceIdRotation { .. }, Reply::Decision(Err(e))) => next
            == Completion::Done(Err(e)),
        (Request::CheckDeviceAttestationPermission, Reply::Status(Ok(_))) => asks_in_turn(
            next,
            key,
            uid,
            false,
            false,
            false,
        ),
        (Request::CheckDeviceAttestationPermission, Reply::Status(Err(e))) => next
            == Completion::Done(Err(e)),
        _ => next == c,
    }
}

/// One step of a completion that is on course is one turn.
pub proof fn lemma_completion_turn(
    level: KeystoreSecurityLevel,
    uid: AppUid,
    ps: Seq<Param>,
    key: KeyDescriptor,
    answers: Answers,
    c: Completion,
    reply: Reply,
)
    requires
        on_course(level, uid, ps, answers, c),
    ensures
        completion_turn(level, uid, ps, key, answers.clock, c, reply, c.after(level, reply)),
{
    let tags = level.rules.device_id_tags@;
    law_tags_are_found_wherever_they_stand(ps, Tag::AttestationChallenge, tags, Algorithm::Rsa);
    law_tags_are_found_wherever_they_stand(ps, Tag::IncludeUniqueId, tags, Algorithm::Rsa);
}

/// A list that gives the date of creation is refused at once; else the clock is read.
pub proof fn law_completion_begins_with_the_clock(uid: AppUid, ps: Seq<Param>, key: KeyDescriptor)
    ensures
        !lacks(ps, Tag::CreationDatetime) ==> Completion::of(uid, ps) == Completion::Done(
            Err(Error::Rc(ResponseCode::InvalidArgument)),
        ),
        lacks(ps, Tag::CreationDatetime) ==> Completion::of(uid, ps).asks(&key) == Request::Clock,
{
}

/// A completion, turn by turn.
pub proof fn law_completion_in_turn(
    level: KeystoreSecurityLevel,
    uid: AppUid,
    ps: Seq<Param>,
    key: KeyDescriptor,
    replies: Seq<Reply>,
    reply: Reply,
)
    ensures
        completion_turn(
            level,
            uid,
            ps,
            key,
            Completion::of(uid, ps).answers(level, key, replies).clock,
            Completion::of(uid, ps).run(level, replies),
            reply,
            Completion::of(uid, ps).run(level, replies.push(reply)),
        ),
{
    lemma_run_on_course(level, uid, ps, key, replies);
    assert(replies.push(reply).drop_last() =~= replies);
    lemma_completion_turn(
        level,
        uid,
        ps,
        key,
        Completion::of(uid, ps).answers(level, key, replies),
        Completion::of(uid, ps).run(level, replies),
        reply,
    );
}

/// Whether there was a reset is judged as of the one clock reading that also dates the key.
pub proof fn law_one_reading_stands_for_now(
    level: KeystoreSecurityLevel,
    uid: AppUid,
    ps: Seq<Param>,
    key: KeyDescriptor,
    replies: Seq<Reply>,
)
    ensures
        Completion::of(uid, ps).run(level, replies).asks(
            &key,
        ) matches Request::HadFactoryResetSinceIdRotation { now } ==> {
            &&& Completion::of(uid, ps).answers(level, key, replies).clock matches Some(reading)
            &&& now == reading.now
        },
{
    lemma_run_on_course(level, uid, ps, key, replies);
}

/// The parameters of the caller come first in a whole list, and as they were.
pub proof fn law_callers_parameters_stay(
    level: KeystoreSecurityLevel,
    ps: Seq<Param>,
    millis: u128,
    aaid: Seq<u8>,
    reset: bool,
)
    ensures
        ps.len() <= completed_list(level, ps, millis, aaid, reset).len(),
        completed_list(level, ps, millis, aaid, reset).take(ps.len() as int) == ps,
{
    assert(completed_list(level, ps, millis, aaid, reset).take(ps.len() as int) =~= ps);
}

/// A caller that gives the date of creation is refused, whatever the services answer.
pub proof fn law_date_of_creation_is_refused(
    level: KeystoreSecurityLevel,
    uid: AppUid,
    ps: Seq<Param>,
    replies: Seq<Reply>,
)
    requires
        has_tag(ps, Tag::CreationDatetime),
    ensures
        Completion::of(uid, ps).run(level, replies) == Completion::Done(
            Err(Error::Rc(ResponseCode::InvalidArgument)),
        ),
    decreases replies.len(),
{
    if replies.len() > 0 {
        law_date_of_creation_is_refused(level, uid, ps, replies.drop_last());
    }
}

/// The reply at `m` grants what was asked for.
pub open spec fn granted(replies: Seq<Reply>, m: int) -> bool {
    &&& 0 <= m < replies.len()
    &&& replies[m] matches Reply::Status(r)
    &&& r is Ok
}

/// A list with a unique id is completed only after the caller was granted the permission for
/// it, for this key or in general.
pub proof fn law_unique_id_needs_a_permission(
    level: KeystoreSecurityLevel,
    uid: AppUid,
    ps: Seq<Param>,
    replies: Seq<Reply>,
    whole: Seq<Param>,
)
    requires
        Completion::of(uid, ps).run(level, replies) == Completion::Done(Ok(whole)),
        has_tag(ps, Tag::IncludeUniqueId),
    ensures
        exists|m: int|
            {
                let before = Completion::of(uid, ps).run(level, replies.take(m));
                &&& #[trigger] granted(replies, m)
                &&& before is UniqueIdKey || before is UniqueIdAttestation
            },
{
    lemma_unique_id_granted(level, uid, ps, replies);
}

/// A list with a device identifier is completed only after the caller was granted the
/// permission to attest those.
pub proof fn law_device_ids_need_a_permission(
    level: KeystoreSecurityLevel,
    uid: AppUid,
    ps: Seq<Param>,
    replies: Seq<Reply>,
    whole: Seq<Param>,
)
    requires
        Completion::of(uid, ps).run(level, replies) == Completion::Done(Ok(whole)),
        has_tag_among(ps, level.rules.device_id_tags@),
    ensures
        exists|m: int|
            {
                &&& #[trigger] granted(replies, m)
                &&& Completion::of(uid, ps).run(level, replies.take(m)) is DeviceIds
            },
    decreases replies.len(),
{
    let start = Completion::of(uid, ps);
    let earlier = replies.drop_last();
    let before = start.run(level, earlier);
    lemma_run_on_course(level, uid, ps, arbitrary(), earlier);
    assert(replies.take(replies.len() - 1) =~= earlier);
    if before is DeviceIds {
        assert(granted(replies, replies.len() - 1));
    } else {
        assert(before is Done);
        law_device_ids_need_a_permission(level, uid, ps, earlier, whole);
        let m = choose|m: int|
            {
                &&& #[trigger] granted(earlier, m)
                &&& start.run(level, earlier.take(m)) is DeviceIds
            };
        assert(earlier.take(m) =~= replies.take(m));
        assert(granted(replies, m));
    }
}

/// The stages that a list with a unique id reaches only with the permission for it.
spec fn past_unique_id(c: Completion) -> bool {
    c is FactoryReset || c is DeviceIds || c is Done && c->Done_0 is Ok
}

proof fn lemma_unique_id_granted(
    level: KeystoreSecurityLevel,
    uid: AppUid,
    ps: Seq<Param>,
    replies: Seq<Reply>,
)
    requires
        past_unique_id(Completion::of(uid, ps).run(level, replies)),
        has_tag(ps, Tag::IncludeUniqueId),
    ensures
        exists|m: int|
            {
                let before = Completion::of(uid, ps).run(level, replies.take(m));
                &&& #[trigger] granted(replies, m)
                &&& before is UniqueIdKey || before is UniqueIdAttestation
            },
    decreases replies.len(),
{
    let start = Completion::of(uid, ps);
    let earlier = replies.drop_last();
    let before = start.run(level, earlier);
    lemma_run_on_course(level, uid, ps, arbitrary(), earlier);
    assert(replies.take(replies.len() - 1) =~= earlier);
    if past_unique_id(before) {
        lemma_unique_id_granted(level, uid, ps, earlier);
        let m = choose|m: int|
            {
                let b = start.run(level, earlier.take(m));
                &&& #[trigger] granted(earlier, m)
                &&& b is UniqueIdKey || b is UniqueIdAttestation
            };
        assert(earlier.take(m) =~= replies.take(m));
        assert(granted(replies, m));
    } else {
        assert(granted(replies, replies.len() - 1));
    }
}

/// The clock is read once: a completion that has left that stage does not come back to it.
pub proof fn law_clock_is_read_once(level: KeystoreSecurityLevel, c: Completion, reply: Reply)
    requires
        !(c is Clock),
    ensures
        !(c.after(level, reply) is Clock),
{
}

/// Where every permission is granted and every service answers, the list is completed, and
/// this is what it holds.
pub proof fn law_granted_list_is_completed(
    level: KeystoreSecurityLevel,
    uid: AppUid,
    ps: Seq<Param>,
    reading: ClockReading,
    aaid: Vec<u8>,
    reset: bool,
)
    requires
        !has_tag(ps, Tag::CreationDatetime),
        reading.millis_since_epoch is Some,
        reading.millis_since_epoch->0 <= i64::MAX,
    ensures
        Completion::of(uid, ps).run(
            level,
            seq![
                Reply::Clock(reading),
                Reply::Aaid(Ok(aaid)),
                Reply::Status(Ok(())),
                Reply::Decision(Ok(reset)),
                Reply::Status(Ok(())),
            ],
        ) == Completion::Done(
            Ok(completed_list(level, ps, reading.millis_since_epoch->0, aaid@, reset)),
        ),
{
    let r0 = Reply::Clock(reading);
    let r1 = Reply::Aaid(Ok(aaid));
    let r2 = Reply::Status(Ok(()));
    let r3 = Reply::Decision(Ok(reset));
    let r4 = Reply::Status(Ok(()));
    let start = Completion::of(uid, ps);
    let c1 = start.after(level, r0);
    let c2 = c1.after(level, r1);
    let c3 = c2.after(level, r2);
    let c4 = c3.after(level, r3);
    let c5 = c4.after(level, r4);
    assert(start.run(level, seq![r0, r1, r2, r3, r4]) == c5) by {
        assert(seq![r0, r1, r2, r3, r4].drop_last() =~= seq![r0, r1, r2, r3]);
        assert(seq![r0, r1, r2, r3].drop_last() =~= seq![r0, r1, r2]);
        assert(seq![r0, r1, r2].drop_last() =~= seq![r0, r1]);
        assert(seq![r0, r1].drop_last() =~= seq![r0]);
        assert(seq![r0].drop_last() =~= seq![]);
        reveal_with_fuel(Completion::run, 6);
    }
    assert(c5 is Done && c5->Done_0 is Ok);
    assert(c5->Done_0->Ok_0 =~= completed_list(
        level,
        ps,
        reading.millis_since_epoch->0,
        aaid@,
        reset,
    ));
}

/// From the first interface version that takes a date on, a list that was completed is refused
/// when it is given again, whatever the services answer: it has its date of creation.
pub proof fn law_completed_list_is_refused_again(
    level: KeystoreSecurityLevel,
    uid: AppUid,
    ps: Seq<Param>,
    replies: Seq<Reply>,
    whole: Seq<Param>,
    again: Seq<Reply>,
)
    requires
        level.hw_info.version_number >= CREATION_DATETIME_SINCE,
        Completion::of(uid, ps).run(level, replies) == Completion::Done(Ok(whole)),
    ensures
        Completion::of(uid, whole).run(level, again) == Completion::Done(
            Err(Error::Rc(ResponseCode::InvalidArgument)),
        ),
{
    law_completed_list_is_whole(level, uid, ps, arbitrary(), replies, whole);
    assert(whole[ps.len() as int].tag == Tag::CreationDatetime);
    law_date_of_creation_is_refused(level, uid, whole, again);
}

/// On an older device, a list that was completed, and that has neither a challenge nor a unique
/// id, is completed to itself when it is given again: nothing is added twice. Only the permission
/// to attest device identifiers is asked for once more, and only its refusal can end the completion
/// otherwise. Provided that no default counts as a device identifier, that permission is asked for
/// only if it was asked for, and so was granted, before.
pub proof fn law_completed_list_is_whole_already(
    level: KeystoreSecurityLevel,
    uid: AppUid,
    ps: Seq<Param>,
    replies: Seq<Reply>,
    whole: Seq<Param>,
    reading: ClockReading,
    again: Seq<Reply>,
    once_more: Seq<Param>,
)
    requires
        level.hw_info.version_number < CREATION_DATETIME_SINCE,
        Completion::of(uid, ps).run(level, replies) == Completion::Done(Ok(whole)),
        !has_tag(whole, Tag::AttestationChallenge),
        !has_tag(whole, Tag::IncludeUniqueId),
    ensures
        Completion::of(uid, whole).run(
            level,
            seq![Reply::Clock(reading), Reply::Status(Ok(()))],
        ) == Completion::Done(Ok(whole)),
        !has_tag_among(
            asymmetric_defaults(ps, level.rules.undefined_not_after),
            level.rules.device_id_tags@,
        ) && !has_tag_among(ps, level.rules.device_id_tags@) ==> Completion::of(uid, whole).run(
            level,
            seq![Reply::Clock(reading)],
        ) == Completion::Done(Ok(whole)),
        !has_tag_among(
            asymmetric_defaults(ps, level.rules.undefined_not_after),
            level.rules.device_id_tags@,
        ) ==> has_tag_among(whole, level.rules.device_id_tags@) == has_tag_among(
            ps,
            level.rules.device_id_tags@,
        ),
        Completion::of(uid, whole).run(level, again) matches Completion::Done(Err(e)) ==> {
            &&& has_tag_among(whole, level.rules.device_id_tags@)
            &&& refused(again, e)
        },
        Completion::of(uid, whole).run(level, again) == Completion::Done(Ok(once_more))
            ==> once_more == whole,
{
    let na = level.rules.undefined_not_after;
    let key: KeyDescriptor = arbitrary();
    law_completed_list_is_whole(level, uid, ps, key, replies, whole);
    let more = asymmetric_defaults(ps, na);
    assert(has_tag(ps, Tag::AttestationChallenge) ==> has_tag(whole, Tag::AttestationChallenge))
        by {
        lemma_given_tag_stays(ps, whole, Tag::AttestationChallenge);
    }
    assert(has_tag(ps, Tag::IncludeUniqueId) ==> has_tag(whole, Tag::IncludeUniqueId)) by {
        lemma_given_tag_stays(ps, whole, Tag::IncludeUniqueId);
    }
    assert(whole =~= ps + more);
    law_defaults_are_added_once(ps, na);
    lemma_tags_of_sum(ps, more);
    assert(!has_tag(whole, Tag::CreationDatetime)) by {
        if has_tag(more, Tag::CreationDatetime) {
            let i = choose|i: int| 0 <= i < more.len() && #[trigger] more[i].tag
                == Tag::CreationDatetime;
        }
    }
    let start = Completion::of(uid, whole);
    let first = Reply::Clock(reading);
    let second = Reply::Status(Ok(()));
    let p = Progress { uid, params: whole, added: seq![], now: reading.now };
    assert(whole + p.added + asymmetric_defaults(whole, na) =~= whole);
    assert(seq![first].drop_last() =~= seq![]);
    assert(seq![first, second].drop_last() =~= seq![first]);
    reveal_with_fuel(Completion::run, 3);
    if start.run(level, again) == Completion::Done(Ok(once_more)) {
        law_completed_list_is_whole(level, uid, whole, key, again, once_more);
        assert(once_more =~= whole);
    }
    lemma_only_a_refusal_ends_it(level, uid, whole, again);
}

/// One of these replies refuses something with this error.
pub open spec fn refused(replies: Seq<Reply>, e: Error) -> bool {
    exists|m: int|
        0 <= m < replies.len() && #[trigger] replies[m] == Reply::Status(Err::<(), Error>(e))
}

proof fn lemma_only_a_refusal_ends_it(
    level: KeystoreSecurityLevel,
    uid: AppUid,
    ps: Seq<Param>,
    replies: Seq<Reply>,
)
    requires
        level.hw_info.version_number < CREATION_DATETIME_SINCE,
        !has_tag(ps, Tag::CreationDatetime),
        !has_tag(ps, Tag::AttestationChallenge),
        !has_tag(ps, Tag::IncludeUniqueId),
    ensures
        match Completion::of(uid, ps).run(level, replies) {
            Completion::Clock { params, .. } => params == ps,
            Completion::DeviceIds(p) => p.params == ps && has_tag_among(
                ps,
                level.rules.device_id_tags@,
            ),
            Completion::Done(Ok(_)) => true,
            Completion::Done(Err(e)) => {
                has_tag_among(ps, level.rules.device_id_tags@) && refused(replies, e)
            },
            _ => false,
        },
    decreases replies.len(),
{
    if replies.len() > 0 {
        let earlier = replies.drop_last();
        lemma_only_a_refusal_ends_it(level, uid, ps, earlier);
        let before = Completion::of(uid, ps).run(level, earlier);
        if let Completion::Done(Err(e)) = before {
            let m = choose|m: int|
                0 <= m < earlier.len() && #[trigger] earlier[m] == Reply::Status(
                    Err::<(), Error>(e),
                );
            assert(replies[m] == Reply::Status(Err::<(), Error>(e)));
        } else if before is DeviceIds {
            assert(replies[replies.len() - 1] == replies.last());
        }
    }
}

/// A tag that the caller gave is among those of a list that begins with the caller's.
proof fn lemma_given_tag_stays(ps: Seq<Param>, whole: Seq<Param>, tag: Tag)
    requires
        ps.len() <= whole.len(),
        forall|i: int| 0 <= i < ps.len() ==> #[trigger] whole[i] == ps[i],
    ensures
        has_tag(ps, tag) ==> has_tag(whole, tag),
{
    if has_tag(ps, tag) {
        let i = choose|i: int| 0 <= i < ps.len() && #[trigger] ps[i].tag == tag;
        assert(whole[i].tag == tag);
    }
}

/// The completion of `ps` starts on course, and ends with the whole list.
pub proof fn lemma_course(
    level: KeystoreSecurityLevel,
    uid: AppUid,
    ps: Seq<Param>,
    answers: Answers,
)
    ensures
        on_course(level, uid, ps, answers, Completion::of(uid, ps)),
        forall|whole: Seq<Param>|
            #[trigger] on_course(level, uid, ps, answers, Completion::Done(Ok(whole))) ==> {
                &&& answers.suffice(level, ps)
                &&& whole == answers.whole(level, ps)
                &&& !has_tag(ps, Tag::CreationDatetime)
            },
{
}

} // verus!
