//! The loading of a key that the caller wants to use.

use vstd::prelude::*;
use crate::request::{LoadBits, Reply, Request};
use crate::types::{Caller, Error, KeyDescriptor, KeyPerm};

verus! {

/// The loading of a key. The database finds the key, and asks back whether the caller may use
/// it before it hands it out.
pub enum Load {
    /// The database is at it.
    Loading,
    /// May the caller use the key?
    CheckingUse { key: KeyDescriptor, access: Option<i32> },
    /// May it force an operation?
    CheckingForced { key: KeyDescriptor, access: Option<i32> },
    /// The answer goes back to the database.
    Verdict(Result<(), Error>),
}

impl Load {
    /// What the loading of `key` waits for.
    pub open spec fn asks<'a>(
        &'a self,
        import_as: &'a KeyDescriptor,
        key: &'a KeyDescriptor,
        caller: Caller,
        bits: LoadBits,
    ) -> Request<'a> {
        match self {
            Load::Loading => Request::LoadKeyEntry { import_as, key, caller, bits },
            Load::CheckingUse { key, access } => Request::CheckKeyPermission {
                perm: KeyPerm::Use,
                key,
                access: *access,
            },
            Load::CheckingForced { key, access } => Request::CheckKeyPermission {
                perm: KeyPerm::ReqForcedOp,
                key,
                access: *access,
            },
            Load::Verdict(r) => Request::ReturnStatus(*r),
        }
    }

    /// Where the loading stands after a reply. The caller needs the permission to use the key
    /// and, for a forced operation, that to force one.
    pub open spec fn after(self, forced: bool, reply: Reply) -> Load {
        match (self, reply) {
            (Load::Loading, Reply::AccessCheck { key, access }) => Load::CheckingUse {
                key,
                access,
            },
            (Load::CheckingUse { key, access }, Reply::Status(Ok(()))) => if forced {
                Load::CheckingForced { key, access }
            } else {
                Load::Verdict(Ok(()))
            },
            (Load::CheckingUse { .. }, Reply::Status(Err(e))) => Load::Verdict(Err(e)),
            (Load::CheckingForced { .. }, Reply::Status(r)) => Load::Verdict(r),
            (Load::Verdict(_), Reply::Returned) => Load::Loading,
            _ => self,
        }
    }

    /// What the loading of `key` waits for.
    pub fn pending<'a>(
        &'a self,
        import_as: &'a KeyDescriptor,
        key: &'a KeyDescriptor,
        caller: Caller,
        bits: LoadBits,
    ) -> (r: Request<'a>)
        ensures
            r == self.asks(import_as, key, caller, bits),
    {
        match self {
            Load::Loading => Request::LoadKeyEntry { import_as, key, caller, bits },
            Load::CheckingUse { key, access } => Request::CheckKeyPermission {
                perm: KeyPerm::Use,
                key,
                access: *access,
            },
            Load::CheckingForced { key, access } => Request::CheckKeyPermission {
                perm: KeyPerm::ReqForcedOp,
                key,
                access: *access,
            },
            Load::Verdict(r) => Request::ReturnStatus(*r),
        }
    }

    /// Goes on from a reply.
    pub fn resume(self, forced: bool, reply: Reply) -> (r: Load)
        ensures
            r == self.after(forced, reply),
    {
        match self {
            Load::Loading => match reply {
                Reply::AccessCheck { key, access } => Load::CheckingUse { key, access },
                _ => Load::Loading,
            },
            Load::CheckingUse { key, access } => match reply {
                Reply::Status(Ok(())) => if forced {
                    Load::CheckingForced { key, access }
                } else {
                    Load::Verdict(Ok(()))
                },
                Reply::Status(Err(e)) => Load::Verdict(Err(e)),
                _ => Load::CheckingUse { key, access },
            },
            Load::CheckingForced { key, access } => match reply {
                Reply::Status(r) => Load::Verdict(r),
                _ => Load::CheckingForced { key, access },
            },
            Load::Verdict(r) => match reply {
                Reply::Returned => Load::Loading,
                _ => Load::Verdict(r),
            },
        }
    }
}

/// The database is asked for the key; where it wants to know whether the caller may have a key,
/// the caller is asked for the permission to use that key, with the access vector that the
/// database found, and then, for a forced operation alone, for the permission to force one. What
/// the database is told is the last of these answers, and it is asked again after that.
pub proof fn law_access_is_asked_for_as_the_database_has_it(
    import_as: KeyDescriptor,
    wanted: KeyDescriptor,
    caller: Caller,
    bits: LoadBits,
    forced: bool,
    key: KeyDescriptor,
    access: Option<i32>,
    may_use: Result<(), Error>,
    may_force: Result<(), Error>,
)
    ensures
        ({
            let asked = Load::Loading.after(forced, Reply::AccessCheck { key, access });
            let told = asked.after(forced, Reply::Status(may_use));
            let forcing = told.after(forced, Reply::Status(may_force));
            &&& Load::Loading.asks(&import_as, &wanted, caller, bits) == (Request::LoadKeyEntry {
                import_as: &import_as,
                key: &wanted,
                caller,
                bits,
            })
            &&& asked.asks(&import_as, &wanted, caller, bits) == (Request::CheckKeyPermission {
                perm: KeyPerm::Use,
                key: &key,
                access,
            })
            &&& !forced || may_use is Err ==> {
                &&& told.asks(&import_as, &wanted, caller, bits) == Request::ReturnStatus(may_use)
                &&& told.after(forced, Reply::Returned) == Load::Loading
            }
            &&& forced && may_use is Ok ==> {
                &&& told.asks(&import_as, &wanted, caller, bits) == (Request::CheckKeyPermission {
                    perm: KeyPerm::ReqForcedOp,
                    key: &key,
                    access,
                })
                &&& forcing.asks(&import_as, &wanted, caller, bits) == Request::ReturnStatus(
                    may_force,
                )
                &&& forcing.after(forced, Reply::Returned) == Load::Loading
            }
        }),
{
    if let Ok(granted) = may_use {
        assert(granted == ());
    }
}

/// A reply that is not the one that was asked for changes nothing.
pub proof fn law_loading_waits_for_its_answer(
    load: Load,
    key: KeyDescriptor,
    caller: Caller,
    bits: LoadBits,
    forced: bool,
    reply: Reply,
)
    requires
        match load.asks(&key, &key, caller, bits) {
            Request::LoadKeyEntry { .. } => !(reply is AccessCheck),
            Request::CheckKeyPermission { .. } => !(reply is Status),
            Request::ReturnStatus(_) => !(reply is Returned),
            _ => true,
        },
    ensures
        load.after(forced, reply) == load,
{
}

/// The database learns that the caller may have a key exactly where the caller may use it and,
/// for a forced operation, may force one; and a refusal is the one that was met.
pub proof fn law_access_needs_use(
    forced: bool,
    key: KeyDescriptor,
    access: Option<i32>,
    may_use: Result<(), Error>,
    may_force: Result<(), Error>,
)
    ensures
        ({
            let asked = Load::Loading.after(forced, Reply::AccessCheck { key, access }).after(
                forced,
                Reply::Status(may_use),
            );
            if forced && may_use is Ok {
                asked.after(forced, Reply::Status(may_force)) == Load::Verdict(may_force)
            } else {
                asked == Load::Verdict(may_use)
            }
        }),
{
    if let Ok(granted) = may_use {
        assert(granted == ());
    }
}

// ---------------------------------------------------------------------------------------
// What the database is told, and what it hands out
// ---------------------------------------------------------------------------------------
impl Load {
    /// The answer to the database is that the caller may have the key.
    pub open spec fn permits(self) -> bool {
        self matches Load::Verdict(r) && r is Ok
    }
}

/// The caller was asked for a permission and does not have it.
pub open spec fn is_refusal(request: Request, reply: Reply) -> bool {
    &&& request is CheckKeyPermission
    &&& reply matches Reply::Status(r)
    &&& r is Err
}

/// The caller was asked for this permission and has it.
pub open spec fn is_grant(request: Request, reply: Reply, perm: KeyPerm) -> bool {
    &&& request matches Request::CheckKeyPermission { perm: p, .. }
    &&& p == perm
    &&& reply matches Reply::Status(r)
    &&& r is Ok
}

/// The database was told that the caller may not have the key.
pub open spec fn tells_refusal(request: Request, reply: Reply) -> bool {
    &&& request matches Request::ReturnStatus(r)
    &&& r is Err
    &&& reply is Returned
}

/// The database was told that the caller may have the key.
pub open spec fn tells_grant(request: Request, reply: Reply) -> bool {
    &&& request matches Request::ReturnStatus(r)
    &&& r is Ok
    &&& reply is Returned
}

/// The database hands out a key.
pub open spec fn hands_out(request: Request, reply: Reply) -> bool {
    &&& request is LoadKeyEntry
    &&& reply matches Reply::Loaded(r)
    &&& r is Ok
}

} // verus!
