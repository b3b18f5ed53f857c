//! The deletion of a key that its caller manages itself.

use vstd::prelude::*;
use crate::level::KeystoreSecurityLevel;
use crate::request::{Reply, Request};
use crate::types::{Domain, Error, ErrorCode, KeyDescriptor, KeyPerm};

verus! {

/// The deletion of a key.
pub enum DeleteKey {
    /// May the caller delete it?
    Checking(KeyDescriptor),
    /// The device deletes it.
    Deleting(Vec<u8>),
    Done(Result<(), Error>),
}

impl DeleteKey {
    /// The deletion of this key, at its start. Only keys that callers manage themselves are
    /// deleted here, and only by their blob.
    pub open spec fn of(key: KeyDescriptor) -> DeleteKey {
        if key.domain == Domain::Blob && key.blob is Some {
            DeleteKey::Checking(key)
        } else {
            DeleteKey::Done(Err(Error::Km(ErrorCode::InvalidArgument)))
        }
    }

    /// What the deletion waits for.
    pub open spec fn asks<'a>(&'a self) -> Request<'a> {
        match self {
            DeleteKey::Checking(key) => Request::CheckKeyPermission {
                perm: KeyPerm::Delete,
                key,
                access: None,
            },
            DeleteKey::Deleting(key_blob) => Request::DeleteKey { key_blob },
            DeleteKey::Done(_) => Request::Nothing,
        }
    }

    /// Where the deletion stands after a reply.
    pub open spec fn after(self, reply: Reply) -> DeleteKey {
        match (self, reply) {
            (DeleteKey::Checking(key), Reply::Status(Ok(()))) => match key.blob {
                Some(blob) => DeleteKey::Deleting(blob),
                None => DeleteKey::Done(Err(Error::Km(ErrorCode::InvalidArgument))),
            },
            (DeleteKey::Checking(_), Reply::Status(Err(e))) => DeleteKey::Done(Err(e)),
            (DeleteKey::Deleting(_), Reply::Status(r)) => DeleteKey::Done(r),
            _ => self,
        }
    }

    /// What the deletion waits for.
    pub fn pending<'a>(&'a self) -> (r: Request<'a>)
        ensures
            r == self.asks(),
    {
        match self {
            DeleteKey::Checking(key) => Request::CheckKeyPermission {
                perm: KeyPerm::Delete,
                key,
                access: None,
            },
            DeleteKey::Deleting(key_blob) => Request::DeleteKey { key_blob },
            DeleteKey::Done(_) => Request::Nothing,
        }
    }

    /// Goes on from a reply.
    pub fn resume(self, reply: Reply) -> (r: DeleteKey)
        ensures
            r == self.after(reply),
    {
        match self {
            DeleteKey::Checking(key) => match reply {
                Reply::Status(Ok(())) => match key.blob {
                    Some(blob) => DeleteKey::Deleting(blob),
                    None => DeleteKey::Done(Err(Error::Km(ErrorCode::InvalidArgument))),
                },
                Reply::Status(Err(e)) => DeleteKey::Done(Err(e)),
                _ => DeleteKey::Checking(key),
            },
            DeleteKey::Deleting(key_blob) => match reply {
                Reply::Status(r) => DeleteKey::Done(r),
                _ => DeleteKey::Deleting(key_blob),
            },
            DeleteKey::Done(r) => DeleteKey::Done(r),
        }
    }
}

impl KeystoreSecurityLevel {
    /// Starts the deletion of a key.
    pub fn delete_key(&self, key: KeyDescriptor) -> (r: DeleteKey)
        ensures
            r == DeleteKey::of(key),
    {
        if key.domain != Domain::Blob {
            return DeleteKey::Done(Err(Error::Km(ErrorCode::InvalidArgument)));
        }
        if key.blob.is_none() {
            return DeleteKey::Done(Err(Error::Km(ErrorCode::InvalidArgument)));
        }
        DeleteKey::Checking(key)
    }
}

/// The device deletes a key only where its caller handed it over as a blob and may delete it,
/// and its answer is the caller's.
pub proof fn law_deletion(key: KeyDescriptor, may_delete: Result<(), Error>, r: Result<(), Error>)
    ensures
        DeleteKey::of(key).after(Reply::Status(may_delete)).after(Reply::Status(r))
            == DeleteKey::Done(
            if key.domain != Domain::Blob || key.blob is None {
                Err(Error::Km(ErrorCode::InvalidArgument))
            } else if may_delete is Err {
                may_delete
            } else {
                r
            },
        ),
        DeleteKey::of(key).after(Reply::Status(may_delete)) is Deleting <==> key.domain
            == Domain::Blob && key.blob is Some && may_delete is Ok,
        DeleteKey::of(key).after(Reply::Status(may_delete)) matches DeleteKey::Deleting(blob)
            ==> Some(blob) == key.blob,
{
}

/// The caller is asked for the permission to delete this very key, and the device for the removal
/// of this very blob; a refusal is the answer, and so is what the device says.
pub proof fn law_deletion_asks_for_this_key(
    key: KeyDescriptor,
    refusal: Error,
    r: Result<(), Error>,
)
    ensures
        ({
            let start = DeleteKey::of(key);
            let granted = start.after(Reply::Status(Ok(())));
            if key.domain == Domain::Blob && key.blob is Some {
                &&& start.asks() == (Request::CheckKeyPermission {
                    perm: KeyPerm::Delete,
                    key: &key,
                    access: None,
                })
                &&& granted.asks() == (Request::DeleteKey { key_blob: &key.blob->0 })
                &&& granted.after(Reply::Status(r)) == DeleteKey::Done(r)
                &&& start.after(Reply::Status(Err(refusal))) == DeleteKey::Done(Err(refusal))
            } else {
                start == DeleteKey::Done(Err(Error::Km(ErrorCode::InvalidArgument)))
            }
        }),
{
}

/// A reply that is not the one that was asked for changes nothing.
pub proof fn law_deletion_waits_for_its_answer(deletion: DeleteKey, reply: Reply)
    requires
        !(reply is Status),
    ensures
        deletion.after(reply) == deletion,
{
}

/// A deletion that is over stays so.
pub proof fn law_deletion_is_final(r: Result<(), Error>, reply: Reply)
    ensures
        DeleteKey::Done(r).after(reply) == DeleteKey::Done(r),
{
}

} // verus!
