//! What is watched while a call runs, and what is recorded of it when it is over.

use vstd::prelude::*;
use crate::level::KeystoreSecurityLevel;
use crate::request::Request;
use crate::types::{AppUid, KeyOrigin, SecurityLevel};

verus! {

/// How long, in milliseconds, the generation of a key may take. RSA keys take their time.
pub const GENERATE_KEY_MILLIS: u64 = 5000;

/// How long, in milliseconds, the post-processing of certificates may take. It may go over the
/// network.
pub const PROCESS_CHAIN_MILLIS: u64 = 1000;

/// The calls of the interface.
#[derive(Clone, Copy, Debug, PartialEq, Eq, Structural)]
pub enum Call {
    CreateOperation,
    GenerateKey,
    ImportKey,
    ImportWrappedKey,
    ConvertStorageKeyToEphemeral,
    DeleteKey,
}

/// What the watchdog is told of a step.
#[derive(Clone, Copy, Debug, PartialEq, Eq)]
pub struct Watch {
    /// How long the step may take, in milliseconds, unless the watchdog's own limit holds.
    pub millis: Option<u64>,
    /// The security level that the step concerns, if the watchdog is told.
    pub security_level: Option<SecurityLevel>,
}

/// What the audit log tells apart.
#[derive(Clone, Copy, Debug, PartialEq, Eq, Structural)]
pub enum AuditEvent {
    KeyGenerated,
    KeyImported,
    KeyDeleted,
}

/// One record of a call that is over.
#[derive(Clone, Copy, Debug, PartialEq, Eq, Structural)]
pub enum Record {
    /// For the metrics: a key that was to be made, and how.
    KeyCreation { uid: i32, security_level: SecurityLevel, origin: KeyOrigin, succeeded: bool },
    /// For the metrics: how long the call took.
    Latency { call: Call, security_level: SecurityLevel, succeeded: bool },
    /// For the audit log, under the name of the key as the caller gave it.
    Audit { event: AuditEvent, succeeded: bool },
}

/// How the key of such a call comes to be, if it makes one.
pub open spec fn origin_of(call: Call) -> Option<KeyOrigin> {
    match call {
        Call::GenerateKey => Some(KeyOrigin::Generated),
        Call::ImportKey => Some(KeyOrigin::Imported),
        Call::ImportWrappedKey => Some(KeyOrigin::SecurelyImported),
        _ => None,
    }
}

/// What the audit log is to know of such a call.
pub open spec fn audit_event_of(call: Call) -> Option<AuditEvent> {
    match call {
        Call::GenerateKey => Some(AuditEvent::KeyGenerated),
        Call::ImportKey => Some(AuditEvent::KeyImported),
        Call::ImportWrappedKey => Some(AuditEvent::KeyImported),
        Call::DeleteKey => Some(AuditEvent::KeyDeleted),
        _ => None,
    }
}

/// The call is one whose latency is recorded.
pub open spec fn is_timed(call: Call) -> bool {
    call == Call::CreateOperation || origin_of(call) is Some
}

/// What is recorded of a call: the key that it was to make, the time that it took, and the
/// audit record, in that order.
pub open spec fn records_of(
    level: SecurityLevel,
    call: Call,
    uid: AppUid,
    succeeded: bool,
) -> Seq<Record> {
    (match origin_of(call) {
        Some(origin) => seq![
            Record::KeyCreation { uid: uid.0 as i32, security_level: level, origin, succeeded },
        ],
        None => seq![],
    }) + (if is_timed(call) {
        seq![Record::Latency { call, security_level: level, succeeded }]
    } else {
        seq![]
    }) + (match audit_event_of(call) {
        Some(event) => seq![Record::Audit { event, succeeded }],
        None => seq![],
    })
}

/// What the watchdog is told of a call.
pub open spec fn watch_of_call(level: SecurityLevel, call: Call) -> Watch {
    Watch {
        millis: if call == Call::GenerateKey {
            Some(GENERATE_KEY_MILLIS)
        } else {
            None
        },
        security_level: Some(level),
    }
}

/// What the watchdog is told while a request is performed. The device, the application id
/// service, the post-processor and the component that provisions keys are watched.
pub open spec fn watch_of(level: SecurityLevel, request: Request) -> Option<Watch> {
    match request {
        Request::GenerateKey { .. } => Some(
            Watch { millis: Some(GENERATE_KEY_MILLIS), security_level: Some(level) },
        ),
        Request::ProcessCertificateChain { .. } => Some(
            Watch { millis: Some(PROCESS_CHAIN_MILLIS), security_level: Some(level) },
        ),
        Request::Begin { .. }
        | Request::AttestationApplicationId { .. }
        | Request::ImportKey { .. }
        | Request::ImportWrappedKey { .. }
        | Request::ConvertStorageKeyToEphemeral { .. }
        | Request::UpgradeKey { .. }
        | Request::DeleteKey { .. } => Some(Watch { millis: None, security_level: Some(level) }),
        Request::StoreRkpdAttestationKey { .. } => Some(
            Watch { millis: None, security_level: None },
        ),
        _ => None,
    }
}

impl KeystoreSecurityLevel {
    /// What the watchdog is told of a call.
    pub fn watch_call(&self, call: Call) -> (r: Watch)
        ensures
            r == watch_of_call(self.security_level, call),
    {
        let millis: Option<u64> = match call {
            Call::GenerateKey => Some(GENERATE_KEY_MILLIS),
            _ => None,
        };
        Watch { millis, security_level: Some(self.security_level) }
    }

    /// What the watchdog is told while a request is performed.
    pub fn watch(&self, request: &Request) -> (r: Option<Watch>)
        ensures
            r == watch_of(self.security_level, *request),
    {
        let security_level = Some(self.security_level);
        match request {
            Request::GenerateKey { .. } => Some(
                Watch { millis: Some(GENERATE_KEY_MILLIS), security_level },
            ),
            Request::ProcessCertificateChain { .. } => Some(
                Watch { millis: Some(PROCESS_CHAIN_MILLIS), security_level },
            ),
            Request::Begin { .. }
            | Request::AttestationApplicationId { .. }
            | Request::ImportKey { .. }
            | Request::ImportWrappedKey { .. }
            | Request::ConvertStorageKeyToEphemeral { .. }
            | Request::UpgradeKey { .. }
            | Request::DeleteKey { .. } => Some(Watch { millis: None, security_level }),
            Request::StoreRkpdAttestationKey { .. } => Some(
                Watch { millis: None, security_level: None },
            ),
            _ => None,
        }
    }

    /// What is recorded of a call that is over.
    pub fn records(&self, call: Call, uid: AppUid, succeeded: bool) -> (r: Vec<Record>)
        ensures
            r@ == records_of(self.security_level, call, uid, succeeded),
    {
        let security_level = self.security_level;
        let mut records: Vec<Record> = Vec::new();
        let origin = match call {
            Call::GenerateKey => Some(KeyOrigin::Generated),
            Call::ImportKey => Some(KeyOrigin::Imported),
            Call::ImportWrappedKey => Some(KeyOrigin::SecurelyImported),
            _ => None,
        };
        if let Some(origin) = origin {
            let uid: i32 = #[verifier::truncate] (uid.0 as i32);
            records.push(Record::KeyCreation { uid, security_level, origin, succeeded });
        }
        if call == Call::CreateOperation || origin.is_some() {
            records.push(Record::Latency { call, security_level, succeeded });
        }
        match call {
            Call::GenerateKey => {
                records.push(Record::Audit { event: AuditEvent::KeyGenerated, succeeded });
            },
            Call::ImportKey | Call::ImportWrappedKey => {
                records.push(Record::Audit { event: AuditEvent::KeyImported, succeeded });
            },
            Call::DeleteKey => {
                records.push(Record::Audit { event: AuditEvent::KeyDeleted, succeeded });
            },
            Call::CreateOperation | Call::ConvertStorageKeyToEphemeral => {},
        }
        assert(records@ =~= records_of(self.security_level, call, uid, succeeded));
        records
    }
}

impl Record {
    /// The record says whether the call succeeded.
    pub open spec fn says(self, outcome: bool) -> bool {
        match self {
            Record::KeyCreation { succeeded, .. } => succeeded == outcome,
            Record::Latency { succeeded, .. } => succeeded == outcome,
            Record::Audit { succeeded, .. } => succeeded == outcome,
        }
    }
}

/// Every record of a call says whether the call succeeded.
pub proof fn law_records_tell_the_outcome(
    level: SecurityLevel,
    call: Call,
    uid: AppUid,
    succeeded: bool,
    i: int,
)
    requires
        0 <= i < records_of(level, call, uid, succeeded).len(),
    ensures
        records_of(level, call, uid, succeeded)[i].says(succeeded),
{
}

/// What is recorded of each call: of one that makes a key, how the key came to be, for the calling
/// uid, then the time, then the audit record; of the creation of an operation, the time alone; of a
/// deletion, the audit record alone; and of a conversion nothing.
pub proof fn law_records_of_each_call(level: SecurityLevel, uid: AppUid, succeeded: bool)
    ensures
        records_of(level, Call::GenerateKey, uid, succeeded) == seq![
            creation(level, uid, KeyOrigin::Generated, succeeded),
            Record::Latency { call: Call::GenerateKey, security_level: level, succeeded },
            audit(AuditEvent::KeyGenerated, succeeded),
        ],
        records_of(level, Call::ImportKey, uid, succeeded) == seq![
            creation(level, uid, KeyOrigin::Imported, succeeded),
            Record::Latency { call: Call::ImportKey, security_level: level, succeeded },
            audit(AuditEvent::KeyImported, succeeded),
        ],
        records_of(level, Call::ImportWrappedKey, uid, succeeded) == seq![
            creation(level, uid, KeyOrigin::SecurelyImported, succeeded),
            Record::Latency { call: Call::ImportWrappedKey, security_level: level, succeeded },
            audit(AuditEvent::KeyImported, succeeded),
        ],
        records_of(level, Call::CreateOperation, uid, succeeded) == seq![
            Record::Latency { call: Call::CreateOperation, security_level: level, succeeded },
        ],
        records_of(level, Call::DeleteKey, uid, succeeded) == seq![
            audit(AuditEvent::KeyDeleted, succeeded),
        ],
        records_of(level, Call::ConvertStorageKeyToEphemeral, uid, succeeded) == Seq::<
            Record,
        >::empty(),
{
}

/// The record that a key was to be made, by the calling uid and in this way.
pub open spec fn creation(
    level: SecurityLevel,
    uid: AppUid,
    origin: KeyOrigin,
    succeeded: bool,
) -> Record {
    Record::KeyCreation { uid: uid.0 as i32, security_level: level, origin, succeeded }
}

/// The audit record of such an event.
pub open spec fn audit(event: AuditEvent, succeeded: bool) -> Record {
    Record::Audit { event, succeeded }
}

/// Every call is watched for its security level, and only the generation of a key has five seconds.
/// So it is with a request to a device for a key; the post-processor has one second. The other
/// requests to a device and that for an application id have no limit of their own, and neither
/// has the component that provisions keys, for which the security level is not named. Nothing
/// else is watched.
pub proof fn law_watches(level: SecurityLevel, call: Call, request: Request)
    ensures
        watch_of_call(level, call).security_level == Some(level),
        call == Call::GenerateKey ==> watch_of_call(level, call).millis == Some(5000u64),
        call != Call::GenerateKey ==> watch_of_call(level, call).millis is None,
        ({
            let plain = request is Begin || request is AttestationApplicationId || request
                is ImportKey || request is ImportWrappedKey || request
                is ConvertStorageKeyToEphemeral || request is UpgradeKey || request is DeleteKey;
            let watched = plain || request is GenerateKey || request is ProcessCertificateChain
                || request is StoreRkpdAttestationKey;
            &&& watch_of(level, request) is Some <==> watched
            &&& watched ==> {
                let watch = watch_of(level, request)->0;
                &&& watch.millis == if request is GenerateKey {
                    Some(5000u64)
                } else if request is ProcessCertificateChain {
                    Some(1000u64)
                } else {
                    None
                }
                &&& watch.security_level == if request is StoreRkpdAttestationKey {
                    None
                } else {
                    Some(level)
                }
            }
        }),
{
}

/// Every call that is to make or to delete a key ends with an audit record, whether or not it
/// succeeds; no other call leaves one.
pub proof fn law_keys_do_not_come_or_go_unaudited(
    level: SecurityLevel,
    call: Call,
    uid: AppUid,
    succeeded: bool,
)
    ensures
        origin_of(call) is Some || call == Call::DeleteKey ==> {
            &&& records_of(level, call, uid, succeeded).len() > 0
            &&& records_of(level, call, uid, succeeded).last() is Audit
        },
        forall|i: int|
            0 <= i < records_of(level, call, uid, succeeded).len() && (#[trigger] records_of(
                level,
                call,
                uid,
                succeeded,
            )[i]) is Audit ==> origin_of(call) is Some || call == Call::DeleteKey,
{
}

} // verus!
