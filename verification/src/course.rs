//! The course of an operation on a key blob that succeeds in the end.
//!
//! Whoever runs the operation calls for it on a blob, and the device answers, if not always at
//! once: it may have no room at first, or take the IMEIs in the other order only. Where the device
//! wants the blob to be upgraded first, the upgraded one is handed over and kept, and the operation
//! is called for on that.

use vstd::prelude::*;
use crate::level::KeystoreSecurityLevel;
use crate::params::{has_tag_among, swapped_imeis};
use crate::request::{Outcome, Reply, Request};
use crate::retry::{is_id_mismatch, GenerateRetry, IMEI_ORDER_FREE_SINCE, SECOND_IMEI_SINCE};
use crate::types::{model, BlobMetaData, Error, ErrorCode, Param, Uuid};
use crate::upgrade::{renewed_metadata, Attempt, Run, StoreUpgraded, Target, Upgrade, Work};

verus! {

/// What comes between a call for the operation and the answer that goes back to the run.
pub enum Delay {
    Nothing,
    /// The device has no room this many times, and room is made each time.
    Full(nat),
    /// The first attempt fails with this error, and the IMEIs are exchanged.
    Mismatch(Error),
}

impl Delay {
    /// What is answered meanwhile.
    pub open spec fn replies(self) -> Seq<Reply> {
        match self {
            Delay::Nothing => seq![],
            Delay::Full(times) => Seq::new(
                2 * times,
                |i: int|
                    if i % 2 == 0 {
                        Reply::Begun(Err(Error::Km(ErrorCode::TooManyOperations)))
                    } else {
                        Reply::Status(Ok(()))
                    },
            ),
            Delay::Mismatch(e) => seq![Reply::Created(Err(e))],
        }
    }

    /// Such a delay can be: operations are begun again once there is room, and keys for
    /// provisioned attestation keys are tried again with the IMEIs exchanged.
    pub open spec fn fits(self, level: KeystoreSecurityLevel, work: Work) -> bool {
        match self {
            Delay::Nothing => true,
            Delay::Full(_) => work is Begin,
            Delay::Mismatch(_) => {
                &&& work matches Work::GenerateProvisioned { params, .. }
                &&& self.suits(level, model(params@))
            },
        }
    }

    /// Such a delay can be where the device makes a key with these parameters: it may know the
    /// IMEIs in the other order.
    pub open spec fn suits(self, level: KeystoreSecurityLevel, whole: Seq<Param>) -> bool {
        match self {
            Delay::Nothing => true,
            Delay::Full(_) => false,
            Delay::Mismatch(e) => {
                &&& is_id_mismatch(e)
                &&& SECOND_IMEI_SINCE <= level.hw_info.version_number < IMEI_ORDER_FREE_SINCE
                &&& has_tag_among(whole, level.rules.imei_tags@)
            },
        }
    }

    /// The attempts, from the call up to the one that the device answers.
    pub open spec fn course(self, work: Work, run: Run, blob: Vec<u8>) -> Seq<Upgrade> {
        match self {
            Delay::Nothing => seq![Upgrade::Attempting(run, Attempt::of(work, blob))],
            Delay::Full(times) => Seq::new(
                2 * times + 1,
                |i: int|
                    if i % 2 == 0 {
                        Upgrade::Attempting(run, Attempt::Calling(blob))
                    } else {
                        Upgrade::Attempting(run, Attempt::Pruning(blob))
                    },
            ),
            Delay::Mismatch(_) => seq![
                Upgrade::Attempting(run, Attempt::Retrying(blob, GenerateRetry::First)),
                Upgrade::Attempting(
                    run,
                    Attempt::Retrying(blob, GenerateRetry::Second(arbitrary())),
                ),
            ],
        }
    }
}

/// What happens where a device wants a blob to be upgraded.
pub struct Handover {
    /// The blob on which the operation was called for.
    pub called_on: Vec<u8>,
    /// What comes before the device says so.
    pub delay: Delay,
    /// The upgraded blob.
    pub blob: Vec<u8>,
    /// The upgraded blob as it is encrypted, if it is to be stored.
    pub reencrypted: Option<(Vec<u8>, Option<BlobMetaData>)>,
}

/// The last answer of a device to a call.
pub open spec fn device_answer(begins: bool, result: Result<Outcome, Error>) -> Reply {
    match result {
        Ok(Outcome::Begun(begun)) => Reply::Begun(Ok(begun)),
        Ok(Outcome::Created(created)) => Reply::Created(Ok(created)),
        Err(e) => if begins {
            Reply::Begun(Err(e))
        } else {
            Reply::Created(Err(e))
        },
    }
}

/// The device wants another blob.
pub open spec fn wants_upgrade() -> Result<Outcome, Error> {
    Err(Error::Km(ErrorCode::KeyRequiresUpgrade))
}

/// The operation is called for on a blob, and the device answers.
#[verifier::opaque]
pub open spec fn call_replies(
    begins: bool,
    blob: Vec<u8>,
    delay: Delay,
    result: Result<Outcome, Error>,
) -> Seq<Reply> {
    seq![Reply::OperationCalled(blob)] + delay.replies() + seq![
        device_answer(begins, result),
        Reply::Returned,
    ]
}

impl Handover {
    /// The operation is called for on the old blob, and the device wants another.
    pub open spec fn refusal_replies(self, begins: bool) -> Seq<Reply> {
        call_replies(begins, self.called_on, self.delay, wants_upgrade())
    }

    /// The upgraded blob is handed over and kept.
    pub open spec fn keep_replies(self) -> Seq<Reply> {
        match self.reencrypted {
            Some(encrypted) => seq![
                Reply::NewBlob(self.blob),
                Reply::Reencrypted(Ok(encrypted)),
                Reply::Status(Ok(())),
                Reply::Returned,
            ],
            None => seq![Reply::NewBlob(self.blob), Reply::Status(Ok(())), Reply::Returned],
        }
    }

    /// The request that stores the upgraded blob for the key with this id.
    pub open spec fn stored_as<'a>(&'a self, key_id: i64, km_uuid: Option<Uuid>) -> Request<'a> {
        match &self.reencrypted {
            Some((blob, metadata)) => Request::SetKeyBlob {
                key_id,
                blob,
                blob_metadata: renewed_metadata(*metadata, km_uuid),
            },
            None => Request::Nothing,
        }
    }

    /// The device wants another blob at once, and the upgraded one is encrypted and stored.
    pub open spec fn is_stored_at_once(self) -> bool {
        self.delay is Nothing && self.reencrypted is Some
    }

    /// The answers are those that the run needs: an upgraded blob that goes to a stored key is
    /// encrypted.
    pub open spec fn fits(self, level: KeystoreSecurityLevel, work: Work, target: Target) -> bool {
        &&& self.delay.fits(level, work)
        &&& target.writes() ==> self.reencrypted is Some
    }
}

/// What the run is told, from its start until the device has done what it was called for: an
/// upgrade, if there is one, and the call.
#[verifier::opaque]
pub open spec fn run_replies(
    begins: bool,
    upgrade: Option<Handover>,
    blob: Vec<u8>,
    delay: Delay,
    outcome: Outcome,
) -> Seq<Reply> {
    match upgrade {
        Some(h) => h.refusal_replies(begins) + h.keep_replies() + call_replies(
            begins,
            blob,
            delay,
            Ok(outcome),
        ),
        None => call_replies(begins, blob, delay, Ok(outcome)),
    }
}

impl Target {
    /// An upgraded blob is to be written for a stored key.
    pub open spec fn writes(self) -> bool {
        match self {
            Target::Stored { key_id, .. } => key_id is Some,
            Target::Rkpd { .. } => false,
        }
    }
}

impl Run {
    /// The run once an upgraded blob was kept: the id of a stored key is spent.
    pub open spec fn spent(self) -> Run {
        match self.target {
            Target::Stored { km_uuid, .. } => Run {
                target: Target::Stored { key_id: None, km_uuid },
                ..self
            },
            Target::Rkpd { .. } => self,
        }
    }

    /// The run once an upgraded blob was kept, if there is one.
    pub open spec fn after_upgrade(self, upgrade: Option<Handover>) -> Run {
        if upgrade is Some {
            self.spent()
        } else {
            self
        }
    }
}

impl Upgrade {
    /// The run stands here, but that the parameters of a second attempt are known only as the
    /// list that they stand for.
    pub open spec fn agrees(self, other: Upgrade, work: Work) -> bool {
        match other {
            Upgrade::Attempting(run, Attempt::Retrying(blob, GenerateRetry::Second(_))) => {
                &&& work matches Work::GenerateProvisioned { params, .. }
                &&& self matches Upgrade::Attempting(
                    r,
                    Attempt::Retrying(b, GenerateRetry::Second(swapped)),
                )
                &&& r == run
                &&& b == blob
                &&& model(swapped@) == swapped_imeis(model(params@))
            },
            _ => self == other,
        }
    }

    /// After this reply the run can stand nowhere but at `next`, and there it is not over.
    #[verifier::opaque]
    pub open spec fn must_go_to(
        self,
        level: KeystoreSecurityLevel,
        work: Work,
        reply: Reply,
        next: Upgrade,
    ) -> bool {
        &&& !(next is Done)
        &&& forall|u: Upgrade, v: Upgrade|
            u.agrees(self, work) && #[trigger] u.goes_to(level, work, reply, v) ==> v.agrees(
                next,
                work,
            )
    }

    /// These replies take the run through these stages.
    pub open spec fn is_course(
        level: KeystoreSecurityLevel,
        work: Work,
        course: Seq<Upgrade>,
        replies: Seq<Reply>,
    ) -> bool {
        &&& course.len() == replies.len() + 1
        &&& forall|i: int|
            0 <= i < replies.len() ==> (#[trigger] course[i]).must_go_to(
                level,
                work,
                replies[i],
                course[i + 1],
            )
    }
}

/// The stages of a call.
#[verifier::opaque]
pub open spec fn call_course(
    work: Work,
    run: Run,
    blob: Vec<u8>,
    delay: Delay,
    result: Result<Outcome, Error>,
) -> Seq<Upgrade> {
    seq![Upgrade::Running(run)] + delay.course(work, run, blob) + seq![
        Upgrade::Attempting(run, Attempt::Answer(result)),
        Upgrade::Running(run),
    ]
}

/// The stages of the keeping of an upgraded blob.
pub open spec fn keep_course(run: Run, h: Handover) -> Seq<Upgrade> {
    let handed_over = run.with_new_blob(h.blob);
    match h.reencrypted {
        Some((blob, metadata)) => seq![
            Upgrade::Running(run),
            handed_over,
            match run.target {
                Target::Stored { key_id: Some(key_id), km_uuid } => Upgrade::Keeping(
                    run.spent(),
                    StoreUpgraded::Storing {
                        key_id,
                        blob,
                        blob_metadata: renewed_metadata(metadata, km_uuid),
                    },
                ),
                _ => handed_over,
            },
            Upgrade::Kept(run.spent(), Ok(())),
            Upgrade::Running(run.spent()),
        ],
        None => seq![
            Upgrade::Running(run),
            handed_over,
            Upgrade::Kept(run.spent(), Ok(())),
            Upgrade::Running(run.spent()),
        ],
    }
}

/// The stages of the run, from its start until the device has done what it was called for.
#[verifier::opaque]
pub open spec fn run_course(
    work: Work,
    run: Run,
    upgrade: Option<Handover>,
    blob: Vec<u8>,
    delay: Delay,
    outcome: Outcome,
) -> Seq<Upgrade> {
    match upgrade {
        Some(h) => call_course(work, run, h.called_on, h.delay, wants_upgrade()).drop_last()
            + keep_course(run, h).drop_last() + call_course(
            work,
            run.spent(),
            blob,
            delay,
            Ok(outcome),
        ),
        None => call_course(work, run, blob, delay, Ok(outcome)),
    }
}

proof fn lemma_call_course(
    level: KeystoreSecurityLevel,
    work: Work,
    run: Run,
    blob: Vec<u8>,
    delay: Delay,
    result: Result<Outcome, Error>,
)
    requires
        result == wants_upgrade() || (result is Ok && work.yields(result->Ok_0)),
        delay.fits(level, work),
    ensures
        Upgrade::is_course(
            level,
            work,
            call_course(work, run, blob, delay, result),
            call_replies(work is Begin, blob, delay, result),
        ),
{
    reveal(call_course);
    reveal(call_replies);
    let course = call_course(work, run, blob, delay, result);
    let replies = call_replies(work is Begin, blob, delay, result);
    let n = delay.replies().len() as int;
    assert(delay.course(work, run, blob).len() == n + 1);
    assert forall|i: int| 0 <= i < replies.len() implies (#[trigger] course[i]).must_go_to(
        level,
        work,
        replies[i],
        course[i + 1],
    ) by {
        reveal(Upgrade::must_go_to);
        if 0 < i <= n {
            assert(course[i] == delay.course(work, run, blob)[i - 1]);
            assert(course[i + 1] == delay.course(work, run, blob)[i]);
            assert(replies[i] == delay.replies()[i - 1]);
        } else if i == 0 {
            assert(course[1] == delay.course(work, run, blob)[0]);
        } else if i == n + 1 {
            assert(course[i] == delay.course(work, run, blob)[n]);
        }
    }
}

proof fn lemma_keep_course(level: KeystoreSecurityLevel, work: Work, run: Run, h: Handover)
    requires
        h.fits(level, work, run.target),
    ensures
        Upgrade::is_course(level, work, keep_course(run, h), h.keep_replies()),
{
    reveal(Upgrade::must_go_to);
}

proof fn lemma_joined_course(
    level: KeystoreSecurityLevel,
    work: Work,
    first: Seq<Upgrade>,
    first_replies: Seq<Reply>,
    second: Seq<Upgrade>,
    second_replies: Seq<Reply>,
)
    requires
        Upgrade::is_course(level, work, first, first_replies),
        Upgrade::is_course(level, work, second, second_replies),
        first.last() == second[0],
    ensures
        Upgrade::is_course(level, work, first.drop_last() + second, first_replies + second_replies),
{
    let course = first.drop_last() + second;
    let replies = first_replies + second_replies;
    let n = first_replies.len();
    assert forall|i: int| 0 <= i < replies.len() implies (#[trigger] course[i]).must_go_to(
        level,
        work,
        replies[i],
        course[i + 1],
    ) by {
        if i < n {
            assert(first[i].must_go_to(level, work, first_replies[i], first[i + 1]));
        } else {
            assert(second[i - n].must_go_to(
                level,
                work,
                second_replies[i - n],
                second[i - n + 1],
            ));
        }
    }
}

/// The run stands where it must: it calls for the operation on the old blob and keeps the upgraded
/// one, if there is one, and calls for the operation on the blob then at hand.
pub open spec fn visits(
    course: Seq<Upgrade>,
    work: Work,
    run: Run,
    upgrade: Option<Handover>,
    blob: Vec<u8>,
    delay: Delay,
    n: int,
) -> bool {
    let after = run.after_upgrade(upgrade);
    &&& upgrade matches Some(h) ==> {
        let c = h.refusal_replies(work is Begin).len() as int;
        &&& n > c + 2
        &&& course[1] == Upgrade::Attempting(run, Attempt::of(work, h.called_on))
        &&& course[c + 1] == run.with_new_blob(h.blob)
        &&& h.reencrypted is Some ==> course[c + 2] == keep_course(run, h)[2]
    }
    &&& n > 2
    &&& course[n - 2] == delay.course(work, after, blob).last()
    &&& course[n] == Upgrade::Running(after)
}

/// A run takes its course, whether or not a blob is upgraded on the way.
pub proof fn lemma_run_course(
    level: KeystoreSecurityLevel,
    work: Work,
    run: Run,
    upgrade: Option<Handover>,
    blob: Vec<u8>,
    delay: Delay,
    outcome: Outcome,
)
    requires
        work.yields(outcome),
        delay.fits(level, work),
        upgrade matches Some(h) ==> h.fits(level, work, run.target),
    ensures
        Upgrade::is_course(
            level,
            work,
            run_course(work, run, upgrade, blob, delay, outcome),
            run_replies(work is Begin, upgrade, blob, delay, outcome),
        ),
        run_course(work, run, upgrade, blob, delay, outcome)[0] == Upgrade::Running(run),
        visits(
            run_course(work, run, upgrade, blob, delay, outcome),
            work,
            run,
            upgrade,
            blob,
            delay,
            run_replies(work is Begin, upgrade, blob, delay, outcome).len() as int,
        ),
{
    reveal(run_course);
    reveal(run_replies);
    let after = run.after_upgrade(upgrade);
    let called = call_course(work, after, blob, delay, Ok(outcome));
    let called_replies = call_replies(work is Begin, blob, delay, Ok(outcome));
    lemma_call_course(level, work, after, blob, delay, Ok(outcome));
    lemma_call_places(work, after, blob, delay, Ok(outcome));
    match upgrade {
        Some(h) => {
            let refused = call_course(work, run, h.called_on, h.delay, wants_upgrade());
            let refused_replies = h.refusal_replies(work is Begin);
            let kept = keep_course(run, h);
            lemma_call_course(level, work, run, h.called_on, h.delay, wants_upgrade());
            lemma_call_places(work, run, h.called_on, h.delay, wants_upgrade());
            lemma_keep_course(level, work, run, h);
            lemma_joined_course(level, work, refused, refused_replies, kept, h.keep_replies());
            lemma_joined_course(
                level,
                work,
                refused.drop_last() + kept,
                refused_replies + h.keep_replies(),
                called,
                called_replies,
            );
            assert((refused.drop_last() + kept).drop_last() =~= refused.drop_last()
                + kept.drop_last());
        },
        None => {},
    }
}

/// The places of a call at which it is known where the run stands.
proof fn lemma_call_places(
    work: Work,
    run: Run,
    blob: Vec<u8>,
    delay: Delay,
    result: Result<Outcome, Error>,
)
    requires
        delay is Full ==> work is Begin,
        delay is Mismatch ==> work is GenerateProvisioned,
    ensures
        ({
            let course = call_course(work, run, blob, delay, result);
            let n = call_replies(work is Begin, blob, delay, result).len() as int;
            &&& n > 2
            &&& course.len() == n + 1
            &&& course[0] == Upgrade::Running(run)
            &&& course[1] == Upgrade::Attempting(run, Attempt::of(work, blob))
            &&& course[n - 2] == delay.course(work, run, blob).last()
            &&& course[n] == Upgrade::Running(run)
        }),
{
    reveal(call_course);
    reveal(call_replies);
}

} // verus!
