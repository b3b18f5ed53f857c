//! The limits on the number of keys of an app.

use vstd::prelude::*;
use crate::level::KeystoreSecurityLevel;
use crate::request::{Reply, Request};
use crate::types::{AppInfo, AppUid, Domain, Error, KeyDescriptor, ResponseCode};

verus! {

/// The fallback limit on the number of keys of an app. All apps stay within it.
pub const DEFAULT_PER_UID_KEY_LIMIT: i32 = 200_000;

/// The limit on the number of keys of an app that targets SDK level 37 or a later one.
pub const API_37_PER_UID_KEY_LIMIT: i32 = 50_000;

/// The first SDK level that has the lower limit.
pub const LOWER_LIMIT_TARGET_SDK: i32 = 37;

/// The app targets an SDK level that has the lower limit and its error code.
pub open spec fn targets_sdk37(info: AppInfo) -> bool {
    info.target_sdk is Some && info.target_sdk->0 >= LOWER_LIMIT_TARGET_SDK
}

/// The number of keys that an app may own. System apps have the higher limit.
pub open spec fn key_limit(info: AppInfo) -> i32 {
    if targets_sdk37(info) && !info.is_system_app {
        API_37_PER_UID_KEY_LIMIT
    } else {
        DEFAULT_PER_UID_KEY_LIMIT
    }
}

/// Whether an app that owns this many keys may have one more. The error is one that the app
/// knows.
pub open spec fn key_count_verdict(count: i32, info: AppInfo) -> Result<(), Error> {
    if count < key_limit(info) {
        Ok(())
    } else if targets_sdk37(info) {
        Err(Error::Rc(ResponseCode::TooManyAppKeysSdk37))
    } else {
        Err(Error::Rc(ResponseCode::TooManyAppKeys))
    }
}

/// Whether an app that owns this many keys may have one more.
pub fn judge_key_count(count: i32, info: AppInfo) -> (r: Result<(), Error>)
    ensures
        r == key_count_verdict(count, info),
{
    let targets_sdk37 = match info.target_sdk {
        Some(target_sdk) => target_sdk >= LOWER_LIMIT_TARGET_SDK,
        None => false,
    };
    let limit: i32 = if info.is_system_app {
        DEFAULT_PER_UID_KEY_LIMIT
    } else if targets_sdk37 {
        API_37_PER_UID_KEY_LIMIT
    } else {
        DEFAULT_PER_UID_KEY_LIMIT
    };
    if count >= limit {
        if targets_sdk37 {
            Err(Error::Rc(ResponseCode::TooManyAppKeysSdk37))
        } else {
            Err(Error::Rc(ResponseCode::TooManyAppKeys))
        }
    } else {
        Ok(())
    }
}

/// The check whether one more key in a namespace would be one too many.
#[derive(Clone, Copy, Debug, PartialEq, Eq)]
pub enum KeyCounts {
    /// Are keys limited at all?
    Flag { domain: Domain, nspace: i64 },
    /// How many are there?
    Count { nspace: i64 },
    /// Whose are they? Asked only where the answer can matter, as it is slow to get.
    Info { nspace: i64, count: i32 },
    Done(Result<(), Error>),
}

impl KeystoreSecurityLevel {
    /// Starts the check whether the key would be one too many for its app.
    pub fn check_key_counts(&self, key: &KeyDescriptor) -> (r: KeyCounts)
        ensures
            r == KeyCounts::of(*key),
    {
        KeyCounts::Flag { domain: key.domain, nspace: key.nspace }
    }
}

impl KeyCounts {
    /// The check for this key, at its start.
    pub open spec fn of(key: KeyDescriptor) -> KeyCounts {
        KeyCounts::Flag { domain: key.domain, nspace: key.nspace }
    }

    /// What the check waits for.
    pub open spec fn asks<'a>(self) -> Request<'a> {
        match self {
            KeyCounts::Flag { .. } => Request::LimitKeysPerUid,
            KeyCounts::Count { nspace } => Request::CountKeyEntries { domain: Domain::App, nspace },
            KeyCounts::Info { nspace, .. } => Request::AppInfo { uid: AppUid(nspace) },
            KeyCounts::Done(_) => Request::Nothing,
        }
    }

    /// Where the check stands after a reply. Only keys of apps are limited; where they cannot
    /// be counted, one more is allowed; and below the lower limit it does not matter whose
    /// they are.
    pub open spec fn after(self, reply: Reply) -> KeyCounts {
        match (self, reply) {
            (KeyCounts::Flag { domain, nspace }, Reply::Flag(limited)) => {
                if limited && domain == Domain::App {
                    KeyCounts::Count { nspace }
                } else {
                    KeyCounts::Done(Ok(()))
                }
            },
            (KeyCounts::Count { nspace }, Reply::Count(Ok(count))) => {
                if count < API_37_PER_UID_KEY_LIMIT {
                    KeyCounts::Done(Ok(()))
                } else {
                    KeyCounts::Info { nspace, count }
                }
            },
            (KeyCounts::Count { .. }, Reply::Count(Err(_))) => KeyCounts::Done(Ok(())),
            (KeyCounts::Info { count, .. }, Reply::App(info)) => KeyCounts::Done(
                key_count_verdict(count, info),
            ),
            _ => self,
        }
    }

    /// What the check waits for.
    pub fn pending<'a>(&self) -> (r: Request<'a>)
        ensures
            r == self.asks(),
    {
        match *self {
            KeyCounts::Flag { .. } => Request::LimitKeysPerUid,
            KeyCounts::Count { nspace } => Request::CountKeyEntries { domain: Domain::App, nspace },
            KeyCounts::Info { nspace, .. } => Request::AppInfo { uid: AppUid(nspace) },
            KeyCounts::Done(_) => Request::Nothing,
        }
    }

    /// Goes on from a reply.
    pub fn resume(self, reply: &Reply) -> (r: KeyCounts)
        ensures
            r == self.after(*reply),
    {
        match self {
            KeyCounts::Flag { domain, nspace } => match reply {
                Reply::Flag(limited) => if !*limited {
                    KeyCounts::Done(Ok(()))
                } else if domain != Domain::App {
                    KeyCounts::Done(Ok(()))
                } else {
                    KeyCounts::Count { nspace }
                },
                _ => self,
            },
            KeyCounts::Count { nspace } => match reply {
                Reply::Count(Ok(count)) => if *count < API_37_PER_UID_KEY_LIMIT {
                    KeyCounts::Done(Ok(()))
                } else {
                    KeyCounts::Info { nspace, count: *count }
                },
                Reply::Count(Err(_)) => KeyCounts::Done(Ok(())),
                _ => self,
            },
            KeyCounts::Info { nspace: _, count } => match reply {
                Reply::App(info) => KeyCounts::Done(judge_key_count(count, *info)),
                _ => self,
            },
            KeyCounts::Done(_) => self,
        }
    }
}

/// Whether there may be one more key of this name, from what the services answer: whether keys
/// are limited, how many there are, and whose they are.
pub open spec fn new_key_verdict(
    key: KeyDescriptor,
    limited: bool,
    count: Result<i32, Error>,
    info: AppInfo,
) -> Result<(), Error> {
    if limited && key.domain == Domain::App && count is Ok {
        key_count_verdict(count->Ok_0, info)
    } else {
        Ok(())
    }
}

/// One more key is refused exactly where keys are limited, the key is one of an app, the keys
/// of that app can be counted, and there are as many as the app may own.
pub proof fn law_refused_exactly_at_the_limit(
    key: KeyDescriptor,
    limited: bool,
    count: Result<i32, Error>,
    info: AppInfo,
)
    ensures
        KeyCounts::of(key).after(Reply::Flag(limited)).after(Reply::Count(count)).after(
            Reply::App(info),
        ) == KeyCounts::Done(new_key_verdict(key, limited, count, info)),
{
}

/// Where keys are limited, an app with fewer than 50000 keys is asked nothing further of, and one
/// more is allowed; from 200000 keys on none is; and in between it is allowed to all but those
/// that target SDK level 37 or later and are no system apps. The refusal has its own code for
/// apps that target SDK level 37 or later. Where keys are not limited, or not to be counted, or
/// are no keys of an app, one more is allowed.
pub proof fn law_limits_on_keys(
    key: KeyDescriptor,
    limited: bool,
    count: Result<i32, Error>,
    info: AppInfo,
)
    ensures
        ({
            let flagged = KeyCounts::of(key).after(Reply::Flag(limited));
            let counted = flagged.after(Reply::Count(count));
            let judged = counted.after(Reply::App(info));
            let modern = info.target_sdk matches Some(sdk) && sdk >= 37;
            let n = count->Ok_0;
            &&& KeyCounts::of(key).asks() == Request::LimitKeysPerUid
            &&& !limited || key.domain != Domain::App ==> flagged == KeyCounts::Done(Ok(()))
            &&& limited && key.domain == Domain::App ==> {
                &&& flagged.asks() == (Request::CountKeyEntries {
                    domain: Domain::App,
                    nspace: key.nspace,
                })
                &&& count is Err || n < 50_000 ==> counted == KeyCounts::Done(Ok(()))
                &&& count is Ok && n >= 50_000 ==> {
                    &&& counted.asks() == (Request::AppInfo { uid: AppUid(key.nspace) })
                    &&& n < 200_000 && (info.is_system_app || !modern) ==> judged
                        == KeyCounts::Done(Ok(()))
                    &&& modern && (n >= 200_000 || !info.is_system_app) ==> judged
                        == KeyCounts::Done(Err(Error::Rc(ResponseCode::TooManyAppKeysSdk37)))
                    &&& !modern && n >= 200_000 ==> judged == KeyCounts::Done(
                        Err(Error::Rc(ResponseCode::TooManyAppKeys)),
                    )
                }
            }
        }),
{
}

/// A reply that is not the one that was asked for changes nothing, and a verdict stands.
pub proof fn law_counts_wait_for_their_answer(counts: KeyCounts, reply: Reply)
    requires
        match counts.asks() {
            Request::LimitKeysPerUid => !(reply is Flag),
            Request::CountKeyEntries { .. } => !(reply is Count),
            Request::AppInfo { .. } => !(reply is App),
            _ => true,
        },
    ensures
        counts.after(reply) == counts,
{
}

/// An app that is refused one more key is also refused it with more keys, and one that is
/// allowed it is also allowed it with fewer.
pub proof fn law_more_keys_are_no_excuse(fewer: i32, more: i32, info: AppInfo)
    requires
        fewer <= more,
    ensures
        key_count_verdict(fewer, info) is Err ==> key_count_verdict(more, info)
            == key_count_verdict(fewer, info),
        key_count_verdict(more, info) is Ok ==> key_count_verdict(fewer, info) is Ok,
{
}

/// All apps stay within the fallback limit, and none is refused below the lower one.
pub proof fn law_limits_bound_every_app(count: i32, info: AppInfo)
    ensures
        count >= DEFAULT_PER_UID_KEY_LIMIT ==> key_count_verdict(count, info) is Err,
        count < API_37_PER_UID_KEY_LIMIT ==> key_count_verdict(count, info) is Ok,
{
}

/// It is asked whose the keys are only where there are at least as many as the lower limit
/// allows.
pub proof fn law_app_info_is_asked_only_at_the_lower_limit(
    counts: KeyCounts,
    reply: Reply,
    uid: AppUid,
)
    requires
        !(counts is Info),
        counts.after(reply).asks() == (Request::AppInfo { uid }),
    ensures
        reply matches Reply::Count(Ok(count)) && count >= API_37_PER_UID_KEY_LIMIT,
{
}

} // verus!
