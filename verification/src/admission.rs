//! What every new key has to pass: the limit on keys, and the permission to bind the name.

use vstd::prelude::*;
use crate::counts::{new_key_verdict, KeyCounts};
use crate::level::KeystoreSecurityLevel;
use crate::request::{Reply, Request};
use crate::types::{AppInfo, AppUid, Domain, Error, KeyDescriptor, KeyPerm, ResponseCode};

verus! {

/// The admission of a new key.
#[derive(Clone, Copy, Debug, PartialEq, Eq)]
pub enum Admission {
    /// Would it be one too many?
    Counting(KeyCounts),
    /// May the caller bind its name?
    Rebind,
    Done(Result<(), Error>),
}

impl Admission {
    /// The admission of this key, at its start.
    pub open spec fn of(key: KeyDescriptor) -> Admission {
        Admission::Counting(KeyCounts::of(key))
    }

    /// What the admission of this key waits for.
    pub open spec fn asks<'a>(self, key: &'a KeyDescriptor) -> Request<'a> {
        match self {
            Admission::Counting(counts) => counts.asks(),
            Admission::Rebind => Request::CheckKeyPermission {
                perm: KeyPerm::Rebind,
                key,
                access: None,
            },
            Admission::Done(_) => Request::Nothing,
        }
    }

    /// Where the admission stands after a reply.
    pub open spec fn after(self, reply: Reply) -> Admission {
        match self {
            Admission::Counting(counts) => match counts.after(reply) {
                KeyCounts::Done(Ok(())) => Admission::Rebind,
                KeyCounts::Done(Err(e)) => Admission::Done(Err(e)),
                counts => Admission::Counting(counts),
            },
            Admission::Rebind => match reply {
                Reply::Status(r) => Admission::Done(r),
                _ => self,
            },
            Admission::Done(_) => self,
        }
    }

    /// Starts the admission of a key.
    pub fn start(level: &KeystoreSecurityLevel, key: &KeyDescriptor) -> (r: Admission)
        ensures
            r == Admission::of(*key),
    {
        Admission::Counting(level.check_key_counts(key))
    }

    /// What the admission of this key waits for.
    pub fn pending<'a>(&self, key: &'a KeyDescriptor) -> (r: Request<'a>)
        ensures
            r == self.asks(key),
    {
        match self {
            Admission::Counting(counts) => counts.pending(),
            Admission::Rebind => Request::CheckKeyPermission {
                perm: KeyPerm::Rebind,
                key,
                access: None,
            },
            Admission::Done(_) => Request::Nothing,
        }
    }

    /// Goes on from a reply.
    pub fn resume(self, reply: &Reply) -> (r: Admission)
        ensures
            r == self.after(*reply),
    {
        match self {
            Admission::Counting(counts) => match counts.resume(reply) {
                KeyCounts::Done(Ok(())) => Admission::Rebind,
                KeyCounts::Done(Err(e)) => Admission::Done(Err(e)),
                counts => Admission::Counting(counts),
            },
            Admission::Rebind => match reply {
                Reply::Status(r) => Admission::Done(*r),
                _ => self,
            },
            Admission::Done(_) => self,
        }
    }
}

/// The admission of a key first counts, as the limits on keys have it; once that allows one more
/// key, the caller is asked for the permission to bind the name of this very key, and that answer
/// is the verdict; a refusal for the number of keys is the verdict at once.
pub proof fn law_admission_counts_and_then_asks(
    key: KeyDescriptor,
    counts: KeyCounts,
    reply: Reply,
    may_bind: Result<(), Error>,
)
    ensures
        Admission::of(key) == Admission::Counting(KeyCounts::of(key)),
        Admission::Counting(counts).asks(&key) == counts.asks(),
        match counts.after(reply) {
            KeyCounts::Done(r) => {
                let next = Admission::Counting(counts).after(reply);
                &&& r is Ok ==> {
                    &&& next.asks(&key) == (Request::CheckKeyPermission {
                        perm: KeyPerm::Rebind,
                        key: &key,
                        access: None,
                    })
                    &&& next.after(Reply::Status(may_bind)) == Admission::Done(may_bind)
                }
                &&& r is Err ==> next == Admission::Done(r)
            },
            next => Admission::Counting(counts).after(reply) == Admission::Counting(next),
        },
        !(reply is Status) ==> Admission::Rebind.after(reply) == Admission::Rebind,
        Admission::Done(may_bind).after(reply) == Admission::Done(may_bind),
{
}

/// The caller is asked for the permission to bind the name of this key.
pub open spec fn asks_to_bind(asked: Request, key: KeyDescriptor) -> bool {
    asked == (Request::CheckKeyPermission { perm: KeyPerm::Rebind, key: &key, access: None })
}

/// One turn of the admission of a key: what follows this request and this reply, where `count` keys
/// were counted before.
pub open spec fn admission_turn(
    key: KeyDescriptor,
    count: Option<i32>,
    stage: Admission,
    reply: Reply,
    next: Admission,
) -> bool {
    let asked = next.asks(&key);
    match (stage.asks(&key), reply) {
        (Request::LimitKeysPerUid, Reply::Flag(limited)) => if limited && key.domain
            == Domain::App {
            asked == (Request::CountKeyEntries { domain: Domain::App, nspace: key.nspace })
        } else {
            asks_to_bind(asked, key)
        },
        (Request::CountKeyEntries { .. }, Reply::Count(Ok(n))) => if n < 50_000 {
            asks_to_bind(asked, key)
        } else {
            asked == (Request::AppInfo { uid: AppUid(key.nspace) })
        },
        (Request::CountKeyEntries { .. }, Reply::Count(Err(_))) => asks_to_bind(asked, key),
        (Request::AppInfo { .. }, Reply::App(info)) => {
            let modern = info.target_sdk matches Some(sdk) && sdk >= 37;
            &&& count matches Some(n)
            &&& if n < 200_000 && (info.is_system_app || !modern) {
                asks_to_bind(asked, key)
            } else if modern {
                next == Admission::Done(Err(Error::Rc(ResponseCode::TooManyAppKeysSdk37)))
            } else {
                next == Admission::Done(Err(Error::Rc(ResponseCode::TooManyAppKeys)))
            }
        },
        (Request::CheckKeyPermission { .. }, Reply::Status(r)) => next == Admission::Done(r),
        _ => next == stage,
    }
}

/// The number of keys that was counted, once this request got this reply.
pub open spec fn counted(before: Option<i32>, request: Request, reply: Reply) -> Option<i32> {
    match (request, reply) {
        (Request::CountKeyEntries { .. }, Reply::Count(Ok(n))) => Some(n),
        _ => before,
    }
}

impl Admission {
    /// The admission is that of this key, and holds the number that was counted.
    pub open spec fn is_for(self, key: KeyDescriptor, count: Option<i32>) -> bool {
        match self {
            Admission::Counting(KeyCounts::Flag { domain, nspace }) => {
                domain == key.domain && nspace == key.nspace
            },
            Admission::Counting(KeyCounts::Count { nspace }) => nspace == key.nspace,
            Admission::Counting(KeyCounts::Info { nspace, count: n }) => {
                nspace == key.nspace && count == Some(n) && n >= 50_000
            },
            Admission::Counting(KeyCounts::Done(_)) => false,
            _ => true,
        }
    }
}

/// One step of the admission of a key is one turn.
pub proof fn lemma_admission_turn(
    key: KeyDescriptor,
    count: Option<i32>,
    stage: Admission,
    reply: Reply,
)
    requires
        stage.is_for(key, count),
    ensures
        stage.after(reply).is_for(key, counted(count, stage.asks(&key), reply)),
        admission_turn(key, count, stage, reply, stage.after(reply)),
        Admission::of(key).is_for(key, None),
        Admission::of(key).asks(&key) == Request::LimitKeysPerUid,
{
}

impl Admission {
    /// Where the admission stands after these replies.
    pub open spec fn run(self, replies: Seq<Reply>) -> Admission
        decreases replies.len(),
    {
        if replies.len() == 0 {
            self
        } else {
            self.run(replies.drop_last()).after(replies.last())
        }
    }

    /// The number of keys that was counted in the admission of this key.
    pub open spec fn count(self, key: KeyDescriptor, replies: Seq<Reply>) -> Option<i32>
        decreases replies.len(),
    {
        if replies.len() == 0 {
            None
        } else {
            counted(
                self.count(key, replies.drop_last()),
                self.run(replies.drop_last()).asks(&key),
                replies.last(),
            )
        }
    }
}

/// The admission of a key, turn by turn. It is asked whether keys are limited; the keys of an app
/// are counted, if they are; from 50000 on it is asked whose they are, and the limit is 200000, or
/// 50000 for apps that target SDK level 37 or later and are no system apps. Then the caller is
/// asked for the permission to bind the name of this very key.
pub proof fn law_admission_in_turn(key: KeyDescriptor, replies: Seq<Reply>, reply: Reply)
    ensures
        Admission::of(key).asks(&key) == Request::LimitKeysPerUid,
        Admission::of(key).run(replies).is_for(key, Admission::of(key).count(key, replies)),
        admission_turn(
            key,
            Admission::of(key).count(key, replies),
            Admission::of(key).run(replies),
            reply,
            Admission::of(key).run(replies.push(reply)),
        ),
    decreases replies.len(),
{
    if replies.len() > 0 {
        law_admission_in_turn(key, replies.drop_last(), replies.last());
        lemma_admission_turn(
            key,
            Admission::of(key).count(key, replies.drop_last()),
            Admission::of(key).run(replies.drop_last()),
            replies.last(),
        );
    }
    assert(replies.push(reply).drop_last() =~= replies);
    lemma_admission_turn(
        key,
        Admission::of(key).count(key, replies),
        Admission::of(key).run(replies),
        reply,
    );
}

/// A new key is admitted exactly where it would not be one too many and the caller may bind its
/// name; and the refusal is the first one that was met.
pub proof fn law_admission(
    key: KeyDescriptor,
    limited: bool,
    count: Result<i32, Error>,
    info: AppInfo,
    may_bind: Result<(), Error>,
)
    ensures
        ({
            let counted = Admission::of(key).after(Reply::Flag(limited)).after(
                Reply::Count(count),
            ).after(Reply::App(info));
            &&& counted.after(Reply::Status(may_bind)) == Admission::Done(
                if new_key_verdict(key, limited, count, info) is Err {
                    new_key_verdict(key, limited, count, info)
                } else {
                    may_bind
                },
            )
            &&& new_key_verdict(key, limited, count, info) is Ok ==> counted == Admission::Rebind
        }),
{
    if let Ok(allowed) = new_key_verdict(key, limited, count, info) {
        assert(allowed == ());
    }
}

} // verus!
