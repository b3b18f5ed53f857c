//! The masking key of a wrapped import: none is as good as one of zeroes.
//!
//! Two imports are compared through all their stages. What a stage holds in a list of its own
//! making is compared by its elements.

use vstd::prelude::*;
use crate::laws::law_wrapped_import_keeps_to_the_request;
use crate::level::KeystoreSecurityLevel;
use crate::request::{Outcome, Reply, Request};
use crate::store::{NewKey, StoreNewKey};
use crate::types::{
    AuthenticatorSpec, Caller, CertificateInfo, KeyCreationResult, KeyDescriptor, KeyMetadata,
    KeyParameter,
};
use crate::upgrade::Upgrade;
use crate::wrapped::{created_or_failed, masking_key_of, ImportWrappedKey, WrappedRequest};

verus! {

/// The same bytes, or none.
pub open spec fn same_bytes(a: Option<Vec<u8>>, b: Option<Vec<u8>>) -> bool {
    match (a, b) {
        (Some(x), Some(y)) => x@ == y@,
        (None, None) => true,
        _ => false,
    }
}

/// The same certificates.
pub open spec fn same_certificates(a: CertificateInfo, b: CertificateInfo) -> bool {
    same_bytes(a.cert, b.cert) && same_bytes(a.cert_chain, b.cert_chain)
}

/// The same metadata.
pub open spec fn same_metadata(a: KeyMetadata, b: KeyMetadata) -> bool {
    &&& a.key == b.key
    &&& a.key_security_level == b.key_security_level
    &&& same_bytes(a.certificate, b.certificate)
    &&& same_bytes(a.certificate_chain, b.certificate_chain)
    &&& a.authorizations == b.authorizations
    &&& a.modification_time_ms == b.modification_time_ms
}

impl NewKey {
    /// The same new key.
    pub open spec fn same_as(self, other: NewKey) -> bool {
        &&& self.key == other.key
        &&& self.key_blob == other.key_blob
        &&& same_certificates(self.cert_info, other.cert_info)
        &&& self.user == other.user
        &&& self.flags == other.flags
    }
}

impl StoreNewKey {
    /// The same stage of the storing of the same key.
    pub open spec fn same_as(self, other: StoreNewKey) -> bool {
        match (self, other) {
            (StoreNewKey::Converting(a, x), StoreNewKey::Converting(b, y)) => {
                a.same_as(b) && x == y
            },
            (StoreNewKey::Dating(a, x), StoreNewKey::Dating(b, y)) => a.same_as(b) && x@ == y@,
            (StoreNewKey::Sealing(a, x, s), StoreNewKey::Sealing(b, y, t)) => {
                a.same_as(b) && x@ == y@ && s == t
            },
            (
                StoreNewKey::Inserting {
                    key: k,
                    cert_info: c,
                    key_parameters: x,
                    creation_date: s,
                    blob: p,
                    blob_metadata: m,
                },
                StoreNewKey::Inserting {
                    key: l,
                    cert_info: d,
                    key_parameters: y,
                    creation_date: t,
                    blob: q,
                    blob_metadata: n,
                },
            ) => k == l && same_certificates(c, d) && x@ == y@ && s == t && p == q && m == n,
            (
                StoreNewKey::Reporting { key: k, cert_info: c, key_parameters: x, creation_date: s },
                StoreNewKey::Reporting { key: l, cert_info: d, key_parameters: y, creation_date: t },
            ) => k == l && same_certificates(c, d) && x@ == y@ && s == t,
            (StoreNewKey::Done(Ok(m)), StoreNewKey::Done(Ok(n))) => same_metadata(m, n),
            (StoreNewKey::Done(Err(e)), StoreNewKey::Done(Err(f))) => e == f,
            _ => false,
        }
    }
}

impl WrappedRequest {
    /// The same request, with the same bytes to mask with.
    pub open spec fn same_as(self, other: WrappedRequest) -> bool {
        &&& self.caller == other.caller
        &&& self.key == other.key
        &&& self.wrapping_key == other.wrapping_key
        &&& self.wrapped_data == other.wrapped_data
        &&& self.masking_key@ == other.masking_key@
        &&& self.params == other.params
        &&& self.password_sid == other.password_sid
        &&& self.fingerprint_sid == other.fingerprint_sid
    }
}

impl ImportWrappedKey {
    /// The same stage of the same import.
    pub open spec fn same_as(self, other: ImportWrappedKey) -> bool {
        match (self, other) {
            (ImportWrappedKey::Admitting(a, x), ImportWrappedKey::Admitting(b, y)) => {
                a.same_as(b) && x == y
            },
            (ImportWrappedKey::Loading(a, x), ImportWrappedKey::Loading(b, y)) => {
                a.same_as(b) && x == y
            },
            (
                ImportWrappedKey::Unwrapping { request: a, key_id: i, blob: p, blob_metadata: m },
                ImportWrappedKey::Unwrapping { request: b, key_id: j, blob: q, blob_metadata: n },
            ) => a.same_as(b) && i == j && p == q && m == n,
            (ImportWrappedKey::Importing(a, x), ImportWrappedKey::Importing(b, y)) => {
                a.same_as(b) && x == y
            },
            (ImportWrappedKey::Storing(x), ImportWrappedKey::Storing(y)) => x.same_as(y),
            (ImportWrappedKey::Done(Ok(m)), ImportWrappedKey::Done(Ok(n))) => same_metadata(m, n),
            (ImportWrappedKey::Done(Err(e)), ImportWrappedKey::Done(Err(f))) => e == f,
            _ => false,
        }
    }
}

/// The same request to a service.
pub open spec fn same_request(a: Request, b: Request) -> bool {
    match (a, b) {
        (
            Request::ImportWrappedKey {
                wrapped_data: d,
                wrapping_key_blob: w,
                masking_key: m,
                params: p,
                password_sid: s,
                fingerprint_sid: f,
            },
            Request::ImportWrappedKey {
                wrapped_data: e,
                wrapping_key_blob: x,
                masking_key: n,
                params: q,
                password_sid: t,
                fingerprint_sid: g,
            },
        ) => d == e && w == x && m@ == n@ && p == q && s == t && f == g,
        (
            Request::SuperEncryptOnKeyInit {
                domain: d,
                key_parameters: x,
                flags: f,
                user: u,
                key_blob: k,
            },
            Request::SuperEncryptOnKeyInit {
                domain: e,
                key_parameters: y,
                flags: g,
                user: v,
                key_blob: l,
            },
        ) => d == e && x@ == y@ && f == g && u == v && k == l,
        (
            Request::StoreNewKey {
                key: k,
                key_parameters: x,
                blob: p,
                blob_metadata: m,
                cert_info: c,
                creation_date: s,
                km_uuid: u,
            },
            Request::StoreNewKey {
                key: l,
                key_parameters: y,
                blob: q,
                blob_metadata: n,
                cert_info: d,
                creation_date: t,
                km_uuid: v,
            },
        ) => k == l && x@ == y@ && p == q && m == n && same_certificates(*c, *d) && s == t && u
            == v,
        (
            Request::ParametersToAuthorizations { key_parameters: x },
            Request::ParametersToAuthorizations { key_parameters: y },
        ) => x@ == y@,
        _ => a == b,
    }
}

proof fn lemma_same_store_start(
    key: KeyDescriptor,
    created: KeyCreationResult,
    caller: Caller,
    a: StoreNewKey,
    b: StoreNewKey,
)
    requires
        a.starts(key, created, caller.user, None),
        b.starts(key, created, caller.user, None),
    ensures
        a.same_as(b),
{
}

proof fn lemma_same_store_step(
    level: KeystoreSecurityLevel,
    a: StoreNewKey,
    b: StoreNewKey,
    reply: Reply,
    a2: StoreNewKey,
    b2: StoreNewKey,
)
    requires
        a.same_as(b),
        a.goes_to(level, reply, a2),
        b.goes_to(level, reply, b2),
    ensures
        a2.same_as(b2),
{
}

/// For a wrapped import a reply leaves one way to go, whatever the masking key is.
proof fn lemma_same_run_step(
    level: KeystoreSecurityLevel,
    a: WrappedRequest,
    b: WrappedRequest,
    run: Upgrade,
    reply: Reply,
    x: Upgrade,
    y: Upgrade,
)
    requires
        run.goes_to(level, a.work(), reply, x),
        run.goes_to(level, b.work(), reply, y),
    ensures
        x == y,
{
}

proof fn lemma_same_step(
    level: KeystoreSecurityLevel,
    a: ImportWrappedKey,
    b: ImportWrappedKey,
    reply: Reply,
    a2: ImportWrappedKey,
    b2: ImportWrappedKey,
)
    requires
        a.same_as(b),
        a.goes_to(level, reply, a2),
        b.goes_to(level, reply, b2),
    ensures
        a2.same_as(b2),
{
    match (a, b) {
        (ImportWrappedKey::Importing(r, run), ImportWrappedKey::Importing(s, _)) => {
            let x = run_after(level, r, run, reply, a2);
            let y = run_after(level, s, run, reply, b2);
            lemma_run_after(level, r, run, reply, a2);
            lemma_run_after(level, s, run, reply, b2);
            lemma_same_run_step(level, r, s, run, reply, x, y);
            if let (ImportWrappedKey::Storing(p), ImportWrappedKey::Storing(q)) = (a2, b2) {
                let created = x->Done_0->Ok_0.0->Created_0;
                lemma_same_store_start(r.key, created, r.caller, p, q);
            }
        },
        (ImportWrappedKey::Storing(x), ImportWrappedKey::Storing(y)) => {
            let p = store_after(a2);
            let q = store_after(b2);
            lemma_same_store_step(level, x, y, reply, p, q);
        },
        _ => {},
    }
}

/// The stage of the storing that this stage of an import stands for.
spec fn store_after(stage: ImportWrappedKey) -> StoreNewKey {
    match stage {
        ImportWrappedKey::Storing(store) => store,
        ImportWrappedKey::Done(r) => StoreNewKey::Done(r),
        _ => arbitrary(),
    }
}

/// The stage of the run from which this stage of an import follows.
spec fn run_after(
    level: KeystoreSecurityLevel,
    request: WrappedRequest,
    run: Upgrade,
    reply: Reply,
    next: ImportWrappedKey,
) -> Upgrade {
    match next {
        ImportWrappedKey::Importing(_, again) => again,
        ImportWrappedKey::Done(Err(e)) => Upgrade::Done(Err(e)),
        ImportWrappedKey::Storing(store) => Upgrade::Done(
            Ok(
                choose|done: (Outcome, Option<Vec<u8>>)|
                    {
                        &&& done.0 is Created
                        &&& #[trigger] run.goes_to(
                            level,
                            request.work(),
                            reply,
                            Upgrade::Done(Ok(done)),
                        )
                        &&& store.starts(request.key, done.0->Created_0, request.caller.user, None)
                    },
            ),
        ),
        _ => arbitrary(),
    }
}

proof fn lemma_run_after(
    level: KeystoreSecurityLevel,
    request: WrappedRequest,
    run: Upgrade,
    reply: Reply,
    next: ImportWrappedKey,
)
    requires
        ImportWrappedKey::Importing(request, run).goes_to(level, reply, next),
    ensures
        run.goes_to(level, request.work(), reply, run_after(level, request, run, reply, next)),
        next matches ImportWrappedKey::Storing(store) ==> {
            &&& run_after(level, request, run, reply, next) matches Upgrade::Done(Ok(done))
            &&& done.0 is Created
            &&& store.starts(request.key, done.0->Created_0, request.caller.user, None)
        },
        next is Importing ==> !created_or_failed(run_after(level, request, run, reply, next)),
        next matches ImportWrappedKey::Done(r) ==> r is Err,
{
}

proof fn lemma_same_stages_ask_alike(
    level: KeystoreSecurityLevel,
    a: ImportWrappedKey,
    b: ImportWrappedKey,
)
    requires
        a.same_as(b),
    ensures
        same_request(a.asks(&level), b.asks(&level)),
{
}

/// Two imports of a wrapped key that differ only in their masking key, of which one has none and
/// the other has thirty-two zeroes, and that get the same replies, stand at the same stage at
/// every step, ask the same of every service, the device among them, and end alike.
pub proof fn law_no_masking_key_is_as_good_as_zeroes(
    level: KeystoreSecurityLevel,
    caller: Caller,
    key: KeyDescriptor,
    wrapping_key: KeyDescriptor,
    zeroes: Vec<u8>,
    params: Vec<KeyParameter>,
    authenticators: Seq<AuthenticatorSpec>,
    without: Seq<ImportWrappedKey>,
    with_zeroes: Seq<ImportWrappedKey>,
    replies: Seq<Reply>,
    n: int,
)
    requires
        zeroes@ == Seq::new(32, |i: int| 0u8),
        ImportWrappedKey::run(level, without, replies),
        ImportWrappedKey::run(level, with_zeroes, replies),
        without[0].starts(caller, key, wrapping_key, None, params, authenticators),
        with_zeroes[0].starts(caller, key, wrapping_key, Some(zeroes), params, authenticators),
        0 <= n < without.len(),
    ensures
        without[n].same_as(with_zeroes[n]),
        same_request(without[n].asks(&level), with_zeroes[n].asks(&level)),
    decreases n,
{
    if n > 0 {
        law_no_masking_key_is_as_good_as_zeroes(
            level,
            caller,
            key,
            wrapping_key,
            zeroes,
            params,
            authenticators,
            without,
            with_zeroes,
            replies,
            n - 1,
        );
        let _ = replies[n - 1];
        lemma_same_step(
            level,
            without[n - 1],
            with_zeroes[n - 1],
            replies[n - 1],
            without[n],
            with_zeroes[n],
        );
    } else {
        assert(masking_key_of(None) =~= masking_key_of(Some(zeroes)));
    }
    lemma_same_stages_ask_alike(level, without[n], with_zeroes[n]);
}

/// The device gets the masking key as it was given, or else thirty-two zeroes.
pub proof fn law_masking_key_is_passed_on(
    level: KeystoreSecurityLevel,
    caller: Caller,
    key: KeyDescriptor,
    wrapping_key: KeyDescriptor,
    given: Option<Vec<u8>>,
    params: Vec<KeyParameter>,
    authenticators: Seq<AuthenticatorSpec>,
    stages: Seq<ImportWrappedKey>,
    replies: Seq<Reply>,
    n: int,
)
    requires
        ImportWrappedKey::run(level, stages, replies),
        stages[0].starts(caller, key, wrapping_key, given, params, authenticators),
        0 <= n < stages.len(),
    ensures
        stages[n].asks(&level) matches Request::ImportWrappedKey { masking_key, .. } ==> match given {
            Some(m) => masking_key@ == m@,
            None => masking_key@ == Seq::new(32, |i: int| 0u8),
        },
{
    match stages[0] {
        ImportWrappedKey::Admitting(request, _) => {
            law_wrapped_import_keeps_to_the_request(level, request, stages, replies, n);
        },
        _ => {
            lemma_done_stays(level, stages, replies, n);
        },
    }
}

proof fn lemma_done_stays(
    level: KeystoreSecurityLevel,
    stages: Seq<ImportWrappedKey>,
    replies: Seq<Reply>,
    n: int,
)
    requires
        ImportWrappedKey::run(level, stages, replies),
        stages[0] is Done,
        0 <= n < stages.len(),
    ensures
        stages[n] is Done,
    decreases n,
{
    if n > 0 {
        lemma_done_stays(level, stages, replies, n - 1);
        let _ = replies[n - 1];
        assert(stages[n - 1].goes_to(level, replies[n - 1], stages[n]));
    }
}

} // verus!
