//! How calls end: with the storing of a new key, with a failure to keep an upgraded blob, or with
//! another result, and that a result is final.

use vstd::prelude::*;
use crate::create::CreateOperation;
use crate::generate::GenerateKey;
use crate::import::ImportKey;
use crate::level::KeystoreSecurityLevel;
use crate::request::Reply;
use crate::store::StoreNewKey;
use crate::types::{CreateOperationResponse, Error, KeyMetadata};
use crate::upgrade::Upgrade;
use crate::wrapped::ImportWrappedKey;

verus! {

// ---------------------------------------------------------------------------------------
// The storing of new keys
// ---------------------------------------------------------------------------------------
impl GenerateKey {
    /// The storing of the new key, from which the result is taken.
    pub open spec fn storing(self) -> StoreNewKey {
        match self {
            GenerateKey::Storing(store) => store,
            GenerateKey::Done(r) => StoreNewKey::Done(r),
            _ => arbitrary(),
        }
    }

    /// The storing of the new key in the stages from `m` to `n`.
    pub open spec fn storing_in(stages: Seq<GenerateKey>, m: int, n: int) -> Seq<StoreNewKey> {
        Seq::new((n - m + 1) as nat, |i: int| stages[m + i].storing())
    }
}

/// A generation ends with the storing of the new key, and what holds of that holds here.
pub proof fn law_generation_ends_with_the_storing(
    level: KeystoreSecurityLevel,
    stages: Seq<GenerateKey>,
    replies: Seq<Reply>,
    m: int,
    n: int,
)
    requires
        GenerateKey::run(level, stages, replies),
        0 <= m <= n < stages.len(),
        stages[m] is Storing,
    ensures
        stages[n] is Storing || stages[n] is Done,
        StoreNewKey::run(
            level,
            GenerateKey::storing_in(stages, m, n),
            replies.subrange(m, n),
        ),
    decreases n,
{
    if m < n {
        law_generation_ends_with_the_storing(level, stages, replies, m, n - 1);
        let before = GenerateKey::storing_in(stages, m, n - 1);
        let after = GenerateKey::storing_in(stages, m, n);
        let told = replies.subrange(m, n);
        assert(stages[n - 1].goes_to(level, replies[n - 1], stages[n]));
        assert forall|i: int| #![trigger told[i]] 0 <= i < told.len() implies after[i].goes_to(
            level,
            told[i],
            after[i + 1],
        ) by {
            if i < n - 1 - m {
                let earlier = replies.subrange(m, n - 1);
                assert(earlier[i] == told[i]);
                assert(before[i].goes_to(level, earlier[i], before[i + 1]));
            }
        }
    }
}

impl ImportKey {
    /// The storing of the new key, from which the result is taken.
    pub open spec fn storing(self) -> StoreNewKey {
        match self {
            ImportKey::Storing(store) => store,
            ImportKey::Done(r) => StoreNewKey::Done(r),
            _ => arbitrary(),
        }
    }

    /// The storing of the new key in the stages from `m` to `n`.
    pub open spec fn storing_in(stages: Seq<ImportKey>, m: int, n: int) -> Seq<StoreNewKey> {
        Seq::new((n - m + 1) as nat, |i: int| stages[m + i].storing())
    }
}

/// An import ends with the storing of the new key, and what holds of that holds here.
pub proof fn law_import_ends_with_the_storing(
    level: KeystoreSecurityLevel,
    stages: Seq<ImportKey>,
    replies: Seq<Reply>,
    m: int,
    n: int,
)
    requires
        ImportKey::run(level, stages, replies),
        0 <= m <= n < stages.len(),
        stages[m] is Storing,
    ensures
        stages[n] is Storing || stages[n] is Done,
        StoreNewKey::run(
            level,
            ImportKey::storing_in(stages, m, n),
            replies.subrange(m, n),
        ),
    decreases n,
{
    if m < n {
        law_import_ends_with_the_storing(level, stages, replies, m, n - 1);
        let before = ImportKey::storing_in(stages, m, n - 1);
        let after = ImportKey::storing_in(stages, m, n);
        let told = replies.subrange(m, n);
        assert(stages[n - 1].goes_to(level, replies[n - 1], stages[n]));
        assert forall|i: int| #![trigger told[i]] 0 <= i < told.len() implies after[i].goes_to(
            level,
            told[i],
            after[i + 1],
        ) by {
            if i < n - 1 - m {
                let earlier = replies.subrange(m, n - 1);
                assert(earlier[i] == told[i]);
                assert(before[i].goes_to(level, earlier[i], before[i + 1]));
            }
        }
    }
}

impl ImportWrappedKey {
    /// The storing of the new key, from which the result is taken.
    pub open spec fn storing(self) -> StoreNewKey {
        match self {
            ImportWrappedKey::Storing(store) => store,
            ImportWrappedKey::Done(r) => StoreNewKey::Done(r),
            _ => arbitrary(),
        }
    }

    /// The storing of the new key in the stages from `m` to `n`.
    pub open spec fn storing_in(stages: Seq<ImportWrappedKey>, m: int, n: int) -> Seq<StoreNewKey> {
        Seq::new((n - m + 1) as nat, |i: int| stages[m + i].storing())
    }
}

/// The import of a wrapped key ends with the storing of the new key, and what holds of that holds
/// here.
pub proof fn law_wrapped_import_ends_with_the_storing(
    level: KeystoreSecurityLevel,
    stages: Seq<ImportWrappedKey>,
    replies: Seq<Reply>,
    m: int,
    n: int,
)
    requires
        ImportWrappedKey::run(level, stages, replies),
        0 <= m <= n < stages.len(),
        stages[m] is Storing,
    ensures
        stages[n] is Storing || stages[n] is Done,
        StoreNewKey::run(
            level,
            ImportWrappedKey::storing_in(stages, m, n),
            replies.subrange(m, n),
        ),
    decreases n,
{
    if m < n {
        law_wrapped_import_ends_with_the_storing(level, stages, replies, m, n - 1);
        let before = ImportWrappedKey::storing_in(stages, m, n - 1);
        let after = ImportWrappedKey::storing_in(stages, m, n);
        let told = replies.subrange(m, n);
        assert(stages[n - 1].goes_to(level, replies[n - 1], stages[n]));
        assert forall|i: int| #![trigger told[i]] 0 <= i < told.len() implies after[i].goes_to(
            level,
            told[i],
            after[i + 1],
        ) by {
            if i < n - 1 - m {
                let earlier = replies.subrange(m, n - 1);
                assert(earlier[i] == told[i]);
                assert(before[i].goes_to(level, earlier[i], before[i + 1]));
            }
        }
    }
}

// ---------------------------------------------------------------------------------------
// Upgraded blobs that cannot be kept
// ---------------------------------------------------------------------------------------
impl GenerateKey {
    /// The run of the work on a device, while there is one.
    pub open spec fn run_at(self) -> Option<Upgrade> {
        match self {
            GenerateKey::Attesting { run, .. } => Some(run),
            GenerateKey::Provisioned { run, .. } => Some(run),
            _ => None,
        }
    }

    /// The run learns that an upgraded blob could not be kept.
    pub open spec fn learns_failure(self) -> bool {
        self.run_at() is Some && self.run_at()->0.learns_failure()
    }

    /// Whoever runs the operation heeds what it is told: once it was told that an upgraded blob
    /// could not be kept, it does not say that the operation is done.
    pub open spec fn runner_heeds(stages: Seq<GenerateKey>, replies: Seq<Reply>) -> bool {
        forall|i: int, j: int|
            #![trigger replies[i], replies[j]]
            0 <= i < j < replies.len() && stages[i].learns_failure() && replies[i] is Returned
                && stages[j].run_at() is Some && stages[j].run_at()->0 is Running ==> !(
            replies[j] matches Reply::UpgradeDone(Ok(_)))
    }

    /// In the first `n` steps the run was told that an upgraded blob could not be kept.
    spec fn was_told_failure(stages: Seq<GenerateKey>, replies: Seq<Reply>, n: int) -> bool {
        exists|i: int|
            0 <= i < n && stages[i].learns_failure() && #[trigger] replies[i] is Returned
    }

    /// Nothing came of the call, or nothing will.
    spec fn is_failing(self, was_told: bool) -> bool {
        match self.run_at() {
            Some(run) => !(run is Reencrypting) && !(run is Done) && (run.learns_failure()
                || was_told),
            None => self matches GenerateKey::Done(r) && r is Err,
        }
    }
}

proof fn lemma_generation_failing(
    level: KeystoreSecurityLevel,
    stages: Seq<GenerateKey>,
    replies: Seq<Reply>,
    m: int,
    n: int,
)
    requires
        GenerateKey::run(level, stages, replies),
        GenerateKey::runner_heeds(stages, replies),
        0 <= m <= n < stages.len(),
        stages[m].learns_failure(),
    ensures
        stages[n].is_failing(GenerateKey::was_told_failure(stages, replies, n)),
    decreases n,
{
    if m < n {
        lemma_generation_failing(level, stages, replies, m, n - 1);
        let reply = replies[n - 1];
        assert(stages[n - 1].goes_to(level, reply, stages[n]));
        if GenerateKey::was_told_failure(stages, replies, n - 1) {
            let i = choose|i: int|
                0 <= i < n - 1 && stages[i].learns_failure() && #[trigger] replies[i] is Returned;
            assert(replies[i] is Returned);
            assert(GenerateKey::was_told_failure(stages, replies, n));
            if stages[n - 1].run_at() is Some && stages[n - 1].run_at()->0 is Running {
                assert(!(replies[n - 1] matches Reply::UpgradeDone(Ok(_))));
            }
        } else if reply is Returned && stages[n - 1].run_at() is Some {
            assert(replies[n - 1] is Returned);
            assert(GenerateKey::was_told_failure(stages, replies, n));
        }
    }
}

/// Where an upgraded blob could not be kept, and whoever runs the operation heeds that,
/// no new key is stored, and the generation does not succeed.
pub proof fn law_generation_fails_where_a_blob_is_not_kept(
    level: KeystoreSecurityLevel,
    stages: Seq<GenerateKey>,
    replies: Seq<Reply>,
    m: int,
    n: int,
)
    requires
        GenerateKey::run(level, stages, replies),
        GenerateKey::runner_heeds(stages, replies),
        0 <= m <= n < stages.len(),
        stages[m].learns_failure(),
    ensures
        !(stages[n].asks(&level) is StoreNewKey),
        stages[n] matches GenerateKey::Done(r) ==> r is Err,
{
    lemma_generation_failing(level, stages, replies, m, n);
}

impl ImportWrappedKey {
    /// The run of the work on a device, while there is one.
    pub open spec fn run_at(self) -> Option<Upgrade> {
        match self {
            ImportWrappedKey::Importing(_, run) => Some(run),
            _ => None,
        }
    }

    /// The run learns that an upgraded blob could not be kept.
    pub open spec fn learns_failure(self) -> bool {
        self.run_at() is Some && self.run_at()->0.learns_failure()
    }

    /// Whoever runs the operation heeds what it is told: once it was told that an upgraded blob
    /// could not be kept, it does not say that the operation is done.
    pub open spec fn runner_heeds(stages: Seq<ImportWrappedKey>, replies: Seq<Reply>) -> bool {
        forall|i: int, j: int|
            #![trigger replies[i], replies[j]]
            0 <= i < j < replies.len() && stages[i].learns_failure() && replies[i] is Returned
                && stages[j].run_at() is Some && stages[j].run_at()->0 is Running ==> !(
            replies[j] matches Reply::UpgradeDone(Ok(_)))
    }

    /// In the first `n` steps the run was told that an upgraded blob could not be kept.
    spec fn was_told_failure(stages: Seq<ImportWrappedKey>, replies: Seq<Reply>, n: int) -> bool {
        exists|i: int|
            0 <= i < n && stages[i].learns_failure() && #[trigger] replies[i] is Returned
    }

    /// Nothing came of the call, or nothing will.
    spec fn is_failing(self, was_told: bool) -> bool {
        match self.run_at() {
            Some(run) => !(run is Reencrypting) && !(run is Done) && (run.learns_failure()
                || was_told),
            None => self matches ImportWrappedKey::Done(r) && r is Err,
        }
    }
}

proof fn lemma_wrapped_failing(
    level: KeystoreSecurityLevel,
    stages: Seq<ImportWrappedKey>,
    replies: Seq<Reply>,
    m: int,
    n: int,
)
    requires
        ImportWrappedKey::run(level, stages, replies),
        ImportWrappedKey::runner_heeds(stages, replies),
        0 <= m <= n < stages.len(),
        stages[m].learns_failure(),
    ensures
        stages[n].is_failing(ImportWrappedKey::was_told_failure(stages, replies, n)),
    decreases n,
{
    if m < n {
        lemma_wrapped_failing(level, stages, replies, m, n - 1);
        let reply = replies[n - 1];
        assert(stages[n - 1].goes_to(level, reply, stages[n]));
        if ImportWrappedKey::was_told_failure(stages, replies, n - 1) {
            let i = choose|i: int|
                0 <= i < n - 1 && stages[i].learns_failure() && #[trigger] replies[i] is Returned;
            assert(replies[i] is Returned);
            assert(ImportWrappedKey::was_told_failure(stages, replies, n));
            if stages[n - 1].run_at() is Some && stages[n - 1].run_at()->0 is Running {
                assert(!(replies[n - 1] matches Reply::UpgradeDone(Ok(_))));
            }
        } else if reply is Returned && stages[n - 1].run_at() is Some {
            assert(replies[n - 1] is Returned);
            assert(ImportWrappedKey::was_told_failure(stages, replies, n));
        }
    }
}

/// Where an upgraded blob could not be kept, and whoever runs the operation heeds that,
/// no new key is stored, and the import of a wrapped key does not succeed.
pub proof fn law_wrapped_import_fails_where_a_blob_is_not_kept(
    level: KeystoreSecurityLevel,
    stages: Seq<ImportWrappedKey>,
    replies: Seq<Reply>,
    m: int,
    n: int,
)
    requires
        ImportWrappedKey::run(level, stages, replies),
        ImportWrappedKey::runner_heeds(stages, replies),
        0 <= m <= n < stages.len(),
        stages[m].learns_failure(),
    ensures
        !(stages[n].asks(&level) is StoreNewKey),
        stages[n] matches ImportWrappedKey::Done(r) ==> r is Err,
{
    lemma_wrapped_failing(level, stages, replies, m, n);
}

impl CreateOperation {
    /// The run of the work on a device, while there is one.
    pub open spec fn run_at(self) -> Option<Upgrade> {
        match self {
            CreateOperation::Beginning { run, .. } => Some(run),
            _ => None,
        }
    }

    /// The run learns that an upgraded blob could not be kept.
    pub open spec fn learns_failure(self) -> bool {
        self.run_at() is Some && self.run_at()->0.learns_failure()
    }

    /// Whoever runs the operation heeds what it is told: once it was told that an upgraded blob
    /// could not be kept, it does not say that the operation is done.
    pub open spec fn runner_heeds(stages: Seq<CreateOperation>, replies: Seq<Reply>) -> bool {
        forall|i: int, j: int|
            #![trigger replies[i], replies[j]]
            0 <= i < j < replies.len() && stages[i].learns_failure() && replies[i] is Returned
                && stages[j].run_at() is Some && stages[j].run_at()->0 is Running ==> !(
            replies[j] matches Reply::UpgradeDone(Ok(_)))
    }

    /// In the first `n` steps the run was told that an upgraded blob could not be kept.
    spec fn was_told_failure(stages: Seq<CreateOperation>, replies: Seq<Reply>, n: int) -> bool {
        exists|i: int|
            0 <= i < n && stages[i].learns_failure() && #[trigger] replies[i] is Returned
    }

    /// Nothing came of the call, or nothing will.
    spec fn is_failing(self, was_told: bool) -> bool {
        match self.run_at() {
            Some(run) => !(run is Reencrypting) && !(run is Done) && (run.learns_failure()
                || was_told),
            None => self matches CreateOperation::Done(r) && r is Err,
        }
    }
}

proof fn lemma_creation_failing(
    level: KeystoreSecurityLevel,
    stages: Seq<CreateOperation>,
    replies: Seq<Reply>,
    m: int,
    n: int,
)
    requires
        CreateOperation::run(level, stages, replies),
        CreateOperation::runner_heeds(stages, replies),
        0 <= m <= n < stages.len(),
        stages[m].learns_failure(),
    ensures
        stages[n].is_failing(CreateOperation::was_told_failure(stages, replies, n)),
    decreases n,
{
    if m < n {
        lemma_creation_failing(level, stages, replies, m, n - 1);
        let reply = replies[n - 1];
        assert(stages[n - 1].goes_to(level, reply, stages[n]));
        if CreateOperation::was_told_failure(stages, replies, n - 1) {
            let i = choose|i: int|
                0 <= i < n - 1 && stages[i].learns_failure() && #[trigger] replies[i] is Returned;
            assert(replies[i] is Returned);
            assert(CreateOperation::was_told_failure(stages, replies, n));
            if stages[n - 1].run_at() is Some && stages[n - 1].run_at()->0 is Running {
                assert(!(replies[n - 1] matches Reply::UpgradeDone(Ok(_))));
            }
        } else if reply is Returned && stages[n - 1].run_at() is Some {
            assert(replies[n - 1] is Returned);
            assert(CreateOperation::was_told_failure(stages, replies, n));
        }
    }
}

/// Where an upgraded blob could not be kept, and whoever runs the operation heeds that,
/// no operation is registered, and its creation does not succeed.
pub proof fn law_operation_fails_where_a_blob_is_not_kept(
    level: KeystoreSecurityLevel,
    stages: Seq<CreateOperation>,
    replies: Seq<Reply>,
    m: int,
    n: int,
)
    requires
        CreateOperation::run(level, stages, replies),
        CreateOperation::runner_heeds(stages, replies),
        0 <= m <= n < stages.len(),
        stages[m].learns_failure(),
    ensures
        !(stages[n].asks(&level) is CreateOperation),
        stages[n] matches CreateOperation::Done(r) ==> r is Err,
{
    lemma_creation_failing(level, stages, replies, m, n);
}

// ---------------------------------------------------------------------------------------
// Results
// ---------------------------------------------------------------------------------------
/// What was answered stays answered, whatever reply comes later.
pub proof fn law_results_are_final(
    level: KeystoreSecurityLevel,
    reply: Reply,
    r: Result<KeyMetadata, Error>,
    response: Result<CreateOperationResponse, Error>,
    generation: GenerateKey,
    import: ImportKey,
    wrapped: ImportWrappedKey,
    creation: CreateOperation,
)
    requires
        GenerateKey::Done(r).goes_to(level, reply, generation),
        ImportKey::Done(r).goes_to(level, reply, import),
        ImportWrappedKey::Done(r).goes_to(level, reply, wrapped),
        CreateOperation::Done(response).goes_to(level, reply, creation),
    ensures
        generation == GenerateKey::Done(r),
        import == ImportKey::Done(r),
        wrapped == ImportWrappedKey::Done(r),
        creation == CreateOperation::Done(response),
{
}

} // verus!
