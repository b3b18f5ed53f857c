//! The import of a key from given material.

use vstd::prelude::*;
use crate::admission::Admission;
use crate::level::{bound_to, names_new_key, new_key_descriptor, KeystoreSecurityLevel};
use crate::params::{import_format, import_format_of};
use crate::request::{Reply, Request};
use crate::required::{AddRequired, Completion};
use crate::store::StoreNewKey;
use crate::types::{
    model, Caller, Error, ErrorCode, KeyDescriptor, KeyFormat, KeyMetadata, KeyParameter,
};

verus! {

/// What the caller asked for.
pub struct ImportRequest {
    pub caller: Caller,
    /// The new key, as the caller means it.
    pub key: KeyDescriptor,
    pub flags: i32,
    pub key_data: Vec<u8>,
}

/// The import of a key.
pub enum ImportKey {
    /// May the caller have a new key of that name?
    Admitting(ImportRequest, Vec<KeyParameter>, Admission),
    /// The parameters are completed.
    Completing(ImportRequest, AddRequired),
    /// The device takes the material.
    Importing(ImportRequest, Vec<KeyParameter>, KeyFormat),
    /// The new key is stored.
    Storing(StoreNewKey),
    Done(Result<KeyMetadata, Error>),
}

impl ImportKey {
    /// The import stands at its start.
    pub open spec fn starts(
        self,
        caller: Caller,
        key: KeyDescriptor,
        params: Vec<KeyParameter>,
        flags: i32,
        key_data: Vec<u8>,
    ) -> bool {
        self == if names_new_key(key) {
            let key = bound_to(key, caller.uid);
            ImportKey::Admitting(
                ImportRequest { caller, key, flags, key_data },
                params,
                Admission::of(key),
            )
        } else {
            ImportKey::Done(Err(Error::Km(ErrorCode::InvalidArgument)))
        }
    }

    /// What the import waits for.
    pub open spec fn asks<'a>(&'a self, level: &KeystoreSecurityLevel) -> Request<'a> {
        match self {
            ImportKey::Admitting(request, _, admission) => admission.asks(&request.key),
            ImportKey::Completing(request, completing) => completing@.asks(&request.key),
            ImportKey::Importing(request, params, format) => Request::ImportKey {
                params,
                format: *format,
                key_data: &request.key_data,
            },
            ImportKey::Storing(store) => store.asks(level),
            ImportKey::Done(_) => Request::Nothing,
        }
    }

    /// The completion of the parameters stands at `completion`, and `self` is what follows.
    pub open spec fn follows_completion(
        self,
        request: ImportRequest,
        completion: Completion,
    ) -> bool {
        match completion {
            Completion::Done(Ok(ps)) => match import_format_of(ps) {
                Ok(format) => {
                    &&& self matches ImportKey::Importing(r, params, f)
                    &&& r == request
                    &&& model(params@) == ps
                    &&& f == format
                },
                Err(e) => self == ImportKey::Done(Err(e)),
            },
            Completion::Done(Err(e)) => self == ImportKey::Done(Err(e)),
            _ => {
                &&& self matches ImportKey::Completing(r, completing)
                &&& r == request
                &&& completing@ == completion
            },
        }
    }

    /// The import stands at `next` after a reply.
    pub open spec fn goes_to(
        self,
        level: KeystoreSecurityLevel,
        reply: Reply,
        next: ImportKey,
    ) -> bool {
        match self {
            ImportKey::Admitting(request, params, admission) => match admission.after(reply) {
                Admission::Done(Ok(())) => next.follows_completion(
                    request,
                    Completion::of(request.caller.uid, model(params@)),
                ),
                Admission::Done(Err(e)) => next == ImportKey::Done(Err(e)),
                admission => next == ImportKey::Admitting(request, params, admission),
            },
            ImportKey::Completing(request, completing) => next.follows_completion(
                request,
                completing@.after(level, reply),
            ),
            ImportKey::Importing(request, _, _) => match reply {
                Reply::Created(Ok(created)) => {
                    &&& next matches ImportKey::Storing(store)
                    &&& store.starts(
                        request.key,
                        created,
                        request.caller.user,
                        Some(request.flags),
                    )
                },
                Reply::Created(Err(e)) => next == ImportKey::Done(Err(e)),
                _ => next == self,
            },
            ImportKey::Storing(store) => match next {
                ImportKey::Done(r) => store.goes_to(level, reply, StoreNewKey::Done(r)),
                ImportKey::Storing(s) => !(s is Done) && store.goes_to(level, reply, s),
                _ => false,
            },
            ImportKey::Done(_) => next == self,
        }
    }

    fn with_completion(request: ImportRequest, completing: AddRequired) -> (r: ImportKey)
        ensures
            r.follows_completion(request, completing@),
    {
        match completing {
            AddRequired::Done(Ok(params)) => match import_format(params.as_slice()) {
                Ok(format) => ImportKey::Importing(request, params, format),
                Err(e) => ImportKey::Done(Err(e)),
            },
            AddRequired::Done(Err(e)) => ImportKey::Done(Err(e)),
            completing => ImportKey::Completing(request, completing),
        }
    }

    /// What the import waits for.
    pub fn pending<'a>(&'a self, level: &KeystoreSecurityLevel) -> (r: Request<'a>)
        ensures
            r == self.asks(level),
    {
        match self {
            ImportKey::Admitting(request, _, admission) => admission.pending(&request.key),
            ImportKey::Completing(request, completing) => completing.pending(&request.key),
            ImportKey::Importing(request, params, format) => Request::ImportKey {
                params,
                format: *format,
                key_data: &request.key_data,
            },
            ImportKey::Storing(store) => store.pending(level),
            ImportKey::Done(_) => Request::Nothing,
        }
    }

    /// Goes on from a reply.
    pub fn resume(self, level: &KeystoreSecurityLevel, reply: Reply) -> (next: ImportKey)
        ensures
            self.goes_to(*level, reply, next),
    {
        match self {
            ImportKey::Admitting(request, params, admission) => match admission.resume(&reply) {
                Admission::Done(Ok(())) => {
                    let completing = level.add_required_parameters(request.caller.uid, params);
                    ImportKey::with_completion(request, completing)
                },
                Admission::Done(Err(e)) => ImportKey::Done(Err(e)),
                admission => ImportKey::Admitting(request, params, admission),
            },
            ImportKey::Completing(request, completing) => {
                let completing = completing.resume(level, reply);
                ImportKey::with_completion(request, completing)
            },
            ImportKey::Importing(request, params, format) => match reply {
                Reply::Created(Ok(created)) => ImportKey::Storing(
                    level.store_new_key(
                        request.key,
                        created,
                        request.caller.user,
                        Some(request.flags),
                    ),
                ),
                Reply::Created(Err(e)) => ImportKey::Done(Err(e)),
                _ => ImportKey::Importing(request, params, format),
            },
            ImportKey::Storing(store) => match store.resume(level, reply) {
                StoreNewKey::Done(r) => ImportKey::Done(r),
                store => ImportKey::Storing(store),
            },
            ImportKey::Done(r) => ImportKey::Done(r),
        }
    }
}

impl KeystoreSecurityLevel {
    /// Starts the import of a key.
    pub fn import_key(
        &self,
        caller: Caller,
        key: KeyDescriptor,
        params: Vec<KeyParameter>,
        flags: i32,
        key_data: Vec<u8>,
    ) -> (r: ImportKey)
        ensures
            r.starts(caller, key, params, flags, key_data),
    {
        match new_key_descriptor(key, caller.uid) {
            Ok(key) => {
                let admission = Admission::start(self, &key);
                ImportKey::Admitting(
                    ImportRequest { caller, key, flags, key_data },
                    params,
                    admission,
                )
            },
            Err(e) => ImportKey::Done(Err(e)),
        }
    }
}

} // verus!
