//! The storing of a new key.

use vstd::prelude::*;
use crate::certs::{stores_chain, unify_certificate_chain};
use crate::level::KeystoreSecurityLevel;
use crate::request::{Reply, Request};
use crate::types::{
    AndroidUserId, Authorization, BlobMetaData, CertificateInfo, Domain, Error, KeyCharacteristics,
    KeyCreationResult, KeyDescriptor, KeyMetadata, KsKeyParam, KsKeyParamValue, SecurityLevel,
};

verus! {

/// A new key, on its way into the database or back to the caller.
pub struct NewKey {
    pub key: KeyDescriptor,
    pub key_blob: Vec<u8>,
    pub cert_info: CertificateInfo,
    pub user: AndroidUserId,
    pub flags: Option<i32>,
}

/// The storing of a new key.
pub enum StoreNewKey {
    /// How does the key store keep its characteristics?
    Converting(NewKey, Vec<KeyCharacteristics>),
    /// When was it made?
    Dating(NewKey, Vec<KsKeyParam>),
    /// How is its blob encrypted?
    Sealing(NewKey, Vec<KsKeyParam>, i64),
    /// Under which id is it stored?
    Inserting {
        key: KeyDescriptor,
        cert_info: CertificateInfo,
        key_parameters: Vec<KsKeyParam>,
        creation_date: i64,
        blob: Vec<u8>,
        blob_metadata: BlobMetaData,
    },
    /// What does the caller see of its parameters?
    Reporting {
        key: KeyDescriptor,
        cert_info: CertificateInfo,
        key_parameters: Vec<KsKeyParam>,
        creation_date: i64,
    },
    Done(Result<KeyMetadata, Error>),
}

/// The descriptor of a key that goes back to the caller as a blob.
pub open spec fn blob_descriptor(blob: Vec<u8>) -> KeyDescriptor {
    KeyDescriptor { domain: Domain::Blob, nspace: 0, alias: None, blob: Some(blob) }
}

/// The descriptor of a key that is stored under this id.
pub open spec fn id_descriptor(key_id: i64) -> KeyDescriptor {
    KeyDescriptor { domain: Domain::KeyId, nspace: key_id, alias: None, blob: None }
}

/// The note of the user to whom a key belongs.
pub open spec fn user_parameter(user: AndroidUserId) -> KsKeyParam {
    KsKeyParam { value: KsKeyParamValue::UserId(user), security_level: SecurityLevel::Software }
}

impl StoreNewKey {
    /// The storing of this key stands at its start.
    pub open spec fn starts(
        self,
        key: KeyDescriptor,
        created: KeyCreationResult,
        user: AndroidUserId,
        flags: Option<i32>,
    ) -> bool {
        &&& self matches StoreNewKey::Converting(new_key, characteristics)
        &&& characteristics == created.key_characteristics
        &&& new_key.key == key
        &&& new_key.key_blob == created.key_blob
        &&& stores_chain(new_key.cert_info, created.certificate_chain@)
        &&& new_key.user == user
        &&& new_key.flags == flags
    }

    /// What the storing waits for.
    pub open spec fn asks<'a>(&'a self, level: &KeystoreSecurityLevel) -> Request<'a> {
        match self {
            StoreNewKey::Converting(_, key_characteristics) => Request::CharacteristicsToInternal {
                key_characteristics,
            },
            StoreNewKey::Dating(_, _) => Request::CreationDate,
            StoreNewKey::Sealing(new_key, key_parameters, _) => Request::SuperEncryptOnKeyInit {
                domain: new_key.key.domain,
                key_parameters,
                flags: new_key.flags,
                user: new_key.user,
                key_blob: &new_key.key_blob,
            },
            StoreNewKey::Inserting {
                key,
                cert_info,
                key_parameters,
                creation_date,
                blob,
                blob_metadata,
            } => Request::StoreNewKey {
                key,
                key_parameters,
                blob,
                blob_metadata: *blob_metadata,
                cert_info,
                creation_date: *creation_date,
                km_uuid: level.km_uuid,
            },
            StoreNewKey::Reporting { key_parameters, .. } => Request::ParametersToAuthorizations {
                key_parameters,
            },
            StoreNewKey::Done(_) => Request::Nothing,
        }
    }

    /// The storing stands at `next` after a reply. A key that the caller keeps as a blob is not
    /// stored; any other is stored under the device that made it.
    pub open spec fn goes_to(
        self,
        level: KeystoreSecurityLevel,
        reply: Reply,
        next: StoreNewKey,
    ) -> bool {
        match (self, reply) {
            (StoreNewKey::Converting(new_key, _), Reply::KsParameters(list)) => {
                &&& next matches StoreNewKey::Dating(k, key_parameters)
                &&& k == new_key
                &&& key_parameters@ == list@.push(user_parameter(new_key.user))
            },
            (StoreNewKey::Dating(new_key, key_parameters), Reply::Date(Ok(creation_date))) => {
                next == if new_key.key.domain == Domain::Blob {
                    StoreNewKey::Reporting {
                        key: blob_descriptor(new_key.key_blob),
                        cert_info: new_key.cert_info,
                        key_parameters,
                        creation_date,
                    }
                } else {
                    StoreNewKey::Sealing(new_key, key_parameters, creation_date)
                }
            },
            (StoreNewKey::Dating(_, _), Reply::Date(Err(e))) => next == StoreNewKey::Done(Err(e)),
            (
                StoreNewKey::Sealing(new_key, key_parameters, creation_date),
                Reply::Sealed(Ok((blob, metadata))),
            ) => next == (StoreNewKey::Inserting {
                key: new_key.key,
                cert_info: new_key.cert_info,
                key_parameters,
                creation_date,
                blob,
                blob_metadata: BlobMetaData { km_uuid: Some(level.km_uuid), ..metadata },
            }),
            (StoreNewKey::Sealing(_, _, _), Reply::Sealed(Err(e))) => next == StoreNewKey::Done(
                Err(e),
            ),
            (
                StoreNewKey::Inserting { cert_info, key_parameters, creation_date, .. },
                Reply::KeyId(Ok(key_id)),
            ) => next == (StoreNewKey::Reporting {
                key: id_descriptor(key_id),
                cert_info,
                key_parameters,
                creation_date,
            }),
            (StoreNewKey::Inserting { .. }, Reply::KeyId(Err(e))) => next == StoreNewKey::Done(
                Err(e),
            ),
            (
                StoreNewKey::Reporting { key, cert_info, creation_date, .. },
                Reply::Authorizations(authorizations),
            ) => next == StoreNewKey::Done(
                Ok(
                    KeyMetadata {
                        key,
                        key_security_level: level.security_level,
                        certificate: cert_info.cert,
                        certificate_chain: cert_info.cert_chain,
                        authorizations,
                        modification_time_ms: creation_date,
                    },
                ),
            ),
            _ => next == self,
        }
    }

    /// What the storing waits for.
    pub fn pending<'a>(&'a self, level: &KeystoreSecurityLevel) -> (r: Request<'a>)
        ensures
            r == self.asks(level),
    {
        match self {
            StoreNewKey::Converting(_, key_characteristics) => Request::CharacteristicsToInternal {
                key_characteristics,
            },
            StoreNewKey::Dating(_, _) => Request::CreationDate,
            StoreNewKey::Sealing(new_key, key_parameters, _) => Request::SuperEncryptOnKeyInit {
                domain: new_key.key.domain,
                key_parameters,
                flags: new_key.flags,
                user: new_key.user,
                key_blob: &new_key.key_blob,
            },
            StoreNewKey::Inserting {
                key,
                cert_info,
                key_parameters,
                creation_date,
                blob,
                blob_metadata,
            } => Request::StoreNewKey {
                key,
                key_parameters,
                blob,
                blob_metadata: *blob_metadata,
                cert_info,
                creation_date: *creation_date,
                km_uuid: level.km_uuid,
            },
            StoreNewKey::Reporting { key_parameters, .. } => Request::ParametersToAuthorizations {
                key_parameters,
            },
            StoreNewKey::Done(_) => Request::Nothing,
        }
    }

    /// Goes on from a reply.
    pub fn resume(self, level: &KeystoreSecurityLevel, reply: Reply) -> (next: StoreNewKey)
        ensures
            self.goes_to(*level, reply, next),
    {
        match self {
            StoreNewKey::Converting(new_key, characteristics) => match reply {
                Reply::KsParameters(list) => {
                    let mut key_parameters = list;
                    key_parameters.push(
                        KsKeyParam {
                            value: KsKeyParamValue::UserId(new_key.user),
                            security_level: SecurityLevel::Software,
                        },
                    );
                    StoreNewKey::Dating(new_key, key_parameters)
                },
                _ => StoreNewKey::Converting(new_key, characteristics),
            },
            StoreNewKey::Dating(new_key, key_parameters) => match reply {
                Reply::Date(Ok(creation_date)) => if new_key.key.domain == Domain::Blob {
                    StoreNewKey::Reporting {
                        key: KeyDescriptor {
                            domain: Domain::Blob,
                            nspace: 0,
                            alias: None,
                            blob: Some(new_key.key_blob),
                        },
                        cert_info: new_key.cert_info,
                        key_parameters,
                        creation_date,
                    }
                } else {
                    StoreNewKey::Sealing(new_key, key_parameters, creation_date)
                },
                Reply::Date(Err(e)) => StoreNewKey::Done(Err(e)),
                _ => StoreNewKey::Dating(new_key, key_parameters),
            },
            StoreNewKey::Sealing(new_key, key_parameters, creation_date) => match reply {
                Reply::Sealed(Ok((blob, metadata))) => StoreNewKey::Inserting {
                    key: new_key.key,
                    cert_info: new_key.cert_info,
                    key_parameters,
                    creation_date,
                    blob,
                    blob_metadata: BlobMetaData {
                        km_uuid: Some(level.km_uuid),
                        others: metadata.others,
                    },
                },
                Reply::Sealed(Err(e)) => StoreNewKey::Done(Err(e)),
                _ => StoreNewKey::Sealing(new_key, key_parameters, creation_date),
            },
            StoreNewKey::Inserting {
                key,
                cert_info,
                key_parameters,
                creation_date,
                blob,
                blob_metadata,
            } => match reply {
                Reply::KeyId(Ok(key_id)) => StoreNewKey::Reporting {
                    key: KeyDescriptor {
                        domain: Domain::KeyId,
                        nspace: key_id,
                        alias: None,
                        blob: None,
                    },
                    cert_info,
                    key_parameters,
                    creation_date,
                },
                Reply::KeyId(Err(e)) => StoreNewKey::Done(Err(e)),
                _ => StoreNewKey::Inserting {
                    key,
                    cert_info,
                    key_parameters,
                    creation_date,
                    blob,
                    blob_metadata,
                },
            },
            StoreNewKey::Reporting { key, cert_info, key_parameters, creation_date } => match reply {
                Reply::Authorizations(authorizations) => StoreNewKey::Done(
                    Ok(
                        KeyMetadata {
                            key,
                            key_security_level: level.security_level,
                            certificate: cert_info.cert,
                            certificate_chain: cert_info.cert_chain,
                            authorizations,
                            modification_time_ms: creation_date,
                        },
                    ),
                ),
                _ => StoreNewKey::Reporting { key, cert_info, key_parameters, creation_date },
            },
            StoreNewKey::Done(r) => StoreNewKey::Done(r),
        }
    }
}

impl KeystoreSecurityLevel {
    /// Starts the storing of a new key.
    pub fn store_new_key(
        &self,
        key: KeyDescriptor,
        creation_result: KeyCreationResult,
        user: AndroidUserId,
        flags: Option<i32>,
    ) -> (r: StoreNewKey)
        ensures
            r.starts(key, creation_result, user, flags),
    {
        let cert_info = unify_certificate_chain(creation_result.certificate_chain);
        StoreNewKey::Converting(
            NewKey { key, key_blob: creation_result.key_blob, cert_info, user, flags },
            creation_result.key_characteristics,
        )
    }
}

// ---------------------------------------------------------------------------------------
// Laws
// ---------------------------------------------------------------------------------------
impl StoreNewKey {
    /// The storing went through these stages, with these replies between them.
    pub open spec fn run(
        level: KeystoreSecurityLevel,
        stages: Seq<StoreNewKey>,
        replies: Seq<Reply>,
    ) -> bool {
        &&& stages.len() == replies.len() + 1
        &&& forall|i: int|
            #![trigger replies[i]]
            0 <= i < replies.len() ==> stages[i].goes_to(level, replies[i], stages[i + 1])
    }

    /// What holds at every stage of the storing of this key: its name, its blob, its
    /// certificates, its user and its flags are those with which it began; a key that goes back
    /// as a blob is not stored; and one that is stored is stored under the device that made it.
    pub open spec fn keeps_to(
        self,
        level: KeystoreSecurityLevel,
        key: KeyDescriptor,
        created: KeyCreationResult,
        user: AndroidUserId,
        flags: Option<i32>,
    ) -> bool {
        match self {
            StoreNewKey::Converting(_, _) => self.starts(key, created, user, flags),
            StoreNewKey::Dating(n, kp) | StoreNewKey::Sealing(n, kp, _) => {
                &&& n.key == key && n.key_blob == created.key_blob
                &&& n.user == user && n.flags == flags
                &&& stores_chain(n.cert_info, created.certificate_chain@)
                &&& kp@.len() > 0 && kp@.last() == user_parameter(user)
                &&& self is Sealing ==> key.domain != Domain::Blob
            },
            StoreNewKey::Inserting { key: k, cert_info, key_parameters, blob_metadata, .. } => {
                &&& k == key && key.domain != Domain::Blob
                &&& stores_chain(cert_info, created.certificate_chain@)
                &&& key_parameters@.len() > 0 && key_parameters@.last() == user_parameter(user)
                &&& blob_metadata.km_uuid == Some(level.km_uuid)
            },
            StoreNewKey::Reporting { key: k, cert_info, key_parameters, .. } => {
                &&& is_answer_for(k, key, created)
                &&& stores_chain(cert_info, created.certificate_chain@)
                &&& key_parameters@.len() > 0 && key_parameters@.last() == user_parameter(user)
            },
            StoreNewKey::Done(Ok(metadata)) => describes(level, metadata, key, created),
            StoreNewKey::Done(Err(_)) => true,
        }
    }
}

/// The caller learns this name for its new key: the blob itself, or the id under which it is
/// stored.
pub open spec fn is_answer_for(
    answer: KeyDescriptor,
    key: KeyDescriptor,
    created: KeyCreationResult,
) -> bool {
    if key.domain == Domain::Blob {
        answer == blob_descriptor(created.key_blob)
    } else {
        answer == id_descriptor(answer.nspace)
    }
}

/// The metadata are those of the key that was created: its name, the level that keeps it, and
/// its certificates.
pub open spec fn describes(
    level: KeystoreSecurityLevel,
    metadata: KeyMetadata,
    key: KeyDescriptor,
    created: KeyCreationResult,
) -> bool {
    &&& is_answer_for(metadata.key, key, created)
    &&& metadata.key_security_level == level.security_level
    &&& stores_chain(
        CertificateInfo { cert: metadata.certificate, cert_chain: metadata.certificate_chain },
        created.certificate_chain@,
    )
}

/// At no stage does the storing of a key lose what it began with.
pub proof fn law_storing_keeps_to_the_key(
    level: KeystoreSecurityLevel,
    key: KeyDescriptor,
    created: KeyCreationResult,
    user: AndroidUserId,
    flags: Option<i32>,
    stages: Seq<StoreNewKey>,
    replies: Seq<Reply>,
    n: int,
)
    requires
        StoreNewKey::run(level, stages, replies),
        stages[0].starts(key, created, user, flags),
        0 <= n < stages.len(),
    ensures
        stages[n].keeps_to(level, key, created, user, flags),
    decreases n,
{
    if n > 0 {
        law_storing_keeps_to_the_key(level, key, created, user, flags, stages, replies, n - 1);
        let _ = replies[n - 1];
        lemma_store_step(
            level,
            key,
            created,
            user,
            flags,
            stages[n - 1],
            replies[n - 1],
            stages[n],
        );
    }
}

/// One step of the storing of a key keeps to it.
pub proof fn lemma_store_step(
    level: KeystoreSecurityLevel,
    key: KeyDescriptor,
    created: KeyCreationResult,
    user: AndroidUserId,
    flags: Option<i32>,
    stage: StoreNewKey,
    reply: Reply,
    next: StoreNewKey,
)
    requires
        stage.keeps_to(level, key, created, user, flags),
        stage.goes_to(level, reply, next),
    ensures
        next.keeps_to(level, key, created, user, flags),
{
}

/// What the services answered while a new key was stored.
pub struct Told {
    /// The characteristics as the key store keeps them.
    pub list: Seq<KsKeyParam>,
    pub date: i64,
    /// The blob as it was encrypted, and what the encryption needs.
    pub sealed: (Vec<u8>, BlobMetaData),
    pub key_id: i64,
    pub authorizations: Vec<Authorization>,
}

impl StoreNewKey {
    /// What was answered once this stage got this reply.
    pub open spec fn hears(self, reply: Reply, before: Told) -> Told {
        match (self, reply) {
            (StoreNewKey::Converting(_, _), Reply::KsParameters(list)) => Told {
                list: list@,
                ..before
            },
            (StoreNewKey::Dating(_, _), Reply::Date(Ok(date))) => Told { date, ..before },
            (StoreNewKey::Sealing(_, _, _), Reply::Sealed(Ok(sealed))) => Told { sealed, ..before },
            (StoreNewKey::Inserting { .. }, Reply::KeyId(Ok(key_id))) => Told { key_id, ..before },
            (StoreNewKey::Reporting { .. }, Reply::Authorizations(authorizations)) => Told {
                authorizations,
                ..before
            },
            _ => before,
        }
    }

    /// What was answered in the first `n` steps, where nothing was before.
    pub open spec fn told_in(stages: Seq<StoreNewKey>, replies: Seq<Reply>, n: int) -> Told
        decreases n,
    {
        if n <= 0 {
            arbitrary()
        } else {
            stages[n - 1].hears(replies[n - 1], StoreNewKey::told_in(stages, replies, n - 1))
        }
    }

    /// The stage holds what was answered so far.
    pub open spec fn reflects(
        self,
        level: KeystoreSecurityLevel,
        key: KeyDescriptor,
        created: KeyCreationResult,
        user: AndroidUserId,
        told: Told,
    ) -> bool {
        let parameters = told.list.push(user_parameter(user));
        let (sealed, metadata) = told.sealed;
        let answer = if key.domain == Domain::Blob {
            blob_descriptor(created.key_blob)
        } else {
            id_descriptor(told.key_id)
        };
        match self {
            StoreNewKey::Converting(_, _) => true,
            StoreNewKey::Dating(_, kp) => kp@ == parameters,
            StoreNewKey::Sealing(_, kp, date) => kp@ == parameters && date == told.date,
            StoreNewKey::Inserting { key_parameters, creation_date, blob, blob_metadata, .. } => {
                &&& key_parameters@ == parameters
                &&& creation_date == told.date
                &&& blob == sealed
                &&& blob_metadata == BlobMetaData { km_uuid: Some(level.km_uuid), ..metadata }
            },
            StoreNewKey::Reporting { key: k, key_parameters, creation_date, .. } => {
                &&& k == answer
                &&& key_parameters@ == parameters
                &&& creation_date == told.date
            },
            StoreNewKey::Done(Ok(m)) => {
                &&& m.key == answer
                &&& m.authorizations == told.authorizations
                &&& m.modification_time_ms == told.date
            },
            StoreNewKey::Done(Err(_)) => true,
        }
    }
}

/// What is stored is what the services answered in this run: the blob as it was encrypted, with
/// the device that made the key beside it, the characteristics with the note of the user, and the
/// date. The caller learns the id under which the key was stored.
pub proof fn law_storing_reflects_the_answers(
    level: KeystoreSecurityLevel,
    key: KeyDescriptor,
    created: KeyCreationResult,
    user: AndroidUserId,
    flags: Option<i32>,
    stages: Seq<StoreNewKey>,
    replies: Seq<Reply>,
    n: int,
)
    requires
        StoreNewKey::run(level, stages, replies),
        stages[0].starts(key, created, user, flags),
        0 <= n < stages.len(),
    ensures
        stages[n].reflects(
            level,
            key,
            created,
            user,
            StoreNewKey::told_in(stages, replies, n),
        ),
        stages[n].asks(&level) matches Request::StoreNewKey {
            key: k,
            key_parameters,
            blob,
            blob_metadata,
            cert_info,
            creation_date,
            km_uuid,
        } ==> {
            let told = StoreNewKey::told_in(stages, replies, n);
            &&& *k == key
            &&& key_parameters@ == told.list.push(user_parameter(user))
            &&& (*blob, blob_metadata) == (
                told.sealed.0,
                BlobMetaData { km_uuid: Some(level.km_uuid), ..told.sealed.1 },
            )
            &&& stores_chain(*cert_info, created.certificate_chain@)
            &&& creation_date == told.date
            &&& km_uuid == level.km_uuid
        },
        stages[n].asks(&level) matches Request::SuperEncryptOnKeyInit {
            domain,
            flags: f,
            user: u,
            key_blob,
            ..
        } ==> {
            &&& domain == key.domain
            &&& f == flags
            &&& u == user
            &&& *key_blob == created.key_blob
        },
    decreases n,
{
    law_storing_keeps_to_the_key(level, key, created, user, flags, stages, replies, n);
    if n > 0 {
        law_storing_reflects_the_answers(
            level,
            key,
            created,
            user,
            flags,
            stages,
            replies,
            n - 1,
        );
        law_storing_keeps_to_the_key(level, key, created, user, flags, stages, replies, n - 1);
        let _ = replies[n - 1];
        assert(stages[n - 1].goes_to(level, replies[n - 1], stages[n]));
    }
}

/// The storing of a new key in turn: its characteristics are taken into the form that the key store
/// keeps, with the note of its user behind them; it is dated; unless it goes back as a blob, its
/// blob is encrypted for its domain, its user and these flags, and stored with all that under the
/// device that made it; and the caller learns its name, its level, its certificates, its
/// parameters and its date. A failure on the way is the answer.
pub proof fn law_storing_in_turn(
    level: KeystoreSecurityLevel,
    key: KeyDescriptor,
    created: KeyCreationResult,
    user: AndroidUserId,
    flags: Option<i32>,
    stages: Seq<StoreNewKey>,
    replies: Seq<Reply>,
    n: int,
)
    requires
        StoreNewKey::run(level, stages, replies),
        stages[0].starts(key, created, user, flags),
        0 <= n < replies.len(),
    ensures
        stages[0].asks(&level) == (Request::CharacteristicsToInternal {
            key_characteristics: &created.key_characteristics,
        }),
        ({
            let told = StoreNewKey::told_in(stages, replies, n);
            let note = KsKeyParam {
                value: KsKeyParamValue::UserId(user),
                security_level: SecurityLevel::Software,
            };
            let next = stages[n + 1];
            match (stages[n].asks(&level), replies[n]) {
                (Request::CharacteristicsToInternal { .. }, Reply::KsParameters(_)) => next.asks(
                    &level,
                ) == Request::CreationDate,
                (Request::CreationDate, Reply::Date(Ok(_))) => if key.domain == Domain::Blob {
                    &&& next.asks(&level) matches Request::ParametersToAuthorizations {
                        key_parameters,
                    }
                    &&& key_parameters@ == told.list.push(note)
                } else {
                    &&& next.asks(&level) matches Request::SuperEncryptOnKeyInit {
                        domain,
                        key_parameters,
                        flags: f,
                        user: u,
                        key_blob,
                    }
                    &&& domain == key.domain
                    &&& key_parameters@ == told.list.push(note)
                    &&& f == flags
                    &&& u == user
                    &&& *key_blob == created.key_blob
                },
                (Request::CreationDate, Reply::Date(Err(e))) => next == StoreNewKey::Done(Err(e)),
                (Request::SuperEncryptOnKeyInit { .. }, Reply::Sealed(Ok((sealed, metadata)))) => {
                    &&& next.asks(&level) matches Request::StoreNewKey {
                        key: k,
                        key_parameters,
                        blob,
                        blob_metadata,
                        cert_info,
                        creation_date,
                        km_uuid,
                    }
                    &&& *k == key
                    &&& key_parameters@ == told.list.push(note)
                    &&& *blob == sealed
                    &&& blob_metadata.km_uuid == Some(level.km_uuid)
                    &&& blob_metadata.others == metadata.others
                    &&& stores_chain(*cert_info, created.certificate_chain@)
                    &&& creation_date == told.date
                    &&& km_uuid == level.km_uuid
                },
                (Request::SuperEncryptOnKeyInit { .. }, Reply::Sealed(Err(e))) => next
                    == StoreNewKey::Done(Err(e)),
                (Request::StoreNewKey { .. }, Reply::KeyId(Ok(_))) => {
                    &&& next.asks(&level) matches Request::ParametersToAuthorizations {
                        key_parameters,
                    }
                    &&& key_parameters@ == told.list.push(note)
                },
                (Request::StoreNewKey { .. }, Reply::KeyId(Err(e))) => next == StoreNewKey::Done(
                    Err(e),
                ),
                (Request::ParametersToAuthorizations { .. }, Reply::Authorizations(list)) => {
                    &&& next matches StoreNewKey::Done(Ok(m))
                    &&& m.key == (KeyDescriptor {
                        domain: if key.domain == Domain::Blob {
                            Domain::Blob
                        } else {
                            Domain::KeyId
                        },
                        nspace: if key.domain == Domain::Blob {
                            0
                        } else {
                            told.key_id
                        },
                        alias: None,
                        blob: if key.domain == Domain::Blob {
                            Some(created.key_blob)
                        } else {
                            None
                        },
                    })
                    &&& m.key_security_level == level.security_level
                    &&& stores_chain(
                        CertificateInfo { cert: m.certificate, cert_chain: m.certificate_chain },
                        created.certificate_chain@,
                    )
                    &&& m.authorizations == list
                    &&& m.modification_time_ms == told.date
                },
                _ => next == stages[n],
            }
        }),
{
    law_storing_reflects_the_answers(level, key, created, user, flags, stages, replies, n);
    law_storing_keeps_to_the_key(level, key, created, user, flags, stages, replies, n);
    assert(stages[n].goes_to(level, replies[n], stages[n + 1]));
}

/// A key that goes back to its caller as a blob is neither encrypted nor stored.
pub proof fn law_self_managed_key_is_not_stored(
    level: KeystoreSecurityLevel,
    key: KeyDescriptor,
    created: KeyCreationResult,
    user: AndroidUserId,
    flags: Option<i32>,
    stages: Seq<StoreNewKey>,
    replies: Seq<Reply>,
    n: int,
)
    requires
        StoreNewKey::run(level, stages, replies),
        stages[0].starts(key, created, user, flags),
        0 <= n < stages.len(),
        key.domain == Domain::Blob,
    ensures
        !(stages[n].asks(&level) is StoreNewKey),
        !(stages[n].asks(&level) is SuperEncryptOnKeyInit),
{
    law_storing_keeps_to_the_key(level, key, created, user, flags, stages, replies, n);
}

/// Where every service answers, a new key is stored, and its caller learns of it.
pub proof fn law_new_key_is_stored(
    level: KeystoreSecurityLevel,
    key: KeyDescriptor,
    created: KeyCreationResult,
    user: AndroidUserId,
    flags: Option<i32>,
    stages: Seq<StoreNewKey>,
    list: Vec<KsKeyParam>,
    creation_date: i64,
    blob: Vec<u8>,
    metadata: BlobMetaData,
    key_id: i64,
    authorizations: Vec<Authorization>,
)
    requires
        StoreNewKey::run(
            level,
            stages,
            seq![
                Reply::KsParameters(list),
                Reply::Date(Ok(creation_date)),
                Reply::Sealed(Ok((blob, metadata))),
                Reply::KeyId(Ok(key_id)),
                Reply::Authorizations(authorizations),
            ],
        ),
        stages[0].starts(key, created, user, flags),
    ensures
        stages[5] matches StoreNewKey::Done(Ok(m)) && {
            &&& describes(level, m, key, created)
            &&& m.key == if key.domain == Domain::Blob {
                blob_descriptor(created.key_blob)
            } else {
                id_descriptor(key_id)
            }
            &&& m.authorizations == authorizations
            &&& m.modification_time_ms == creation_date
        },
{
    let replies = seq![
        Reply::KsParameters(list),
        Reply::Date(Ok(creation_date)),
        Reply::Sealed(Ok((blob, metadata))),
        Reply::KeyId(Ok(key_id)),
        Reply::Authorizations(authorizations),
    ];
    assert(stages[0].goes_to(level, replies[0], stages[1]));
    assert(stages[1].goes_to(level, replies[1], stages[2]));
    assert(stages[2].goes_to(level, replies[2], stages[3]));
    assert(stages[3].goes_to(level, replies[3], stages[4]));
    assert(stages[4].goes_to(level, replies[4], stages[5]));
    law_storing_keeps_to_the_key(level, key, created, user, flags, stages, replies, 5);
}

} // verus!
