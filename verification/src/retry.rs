//! The generation of a key, with a second attempt where the device may know the two IMEIs in
//! the other order.
//!
//! Devices did not have to take the IMEIs in either order, and the system does not promise to
//! give them in a stable one.

use vstd::prelude::*;
use crate::level::KeystoreSecurityLevel;
use crate::lists::law_tags_are_found_wherever_they_stand;
use crate::params::{contains_tag_among, has_tag_among, swap_imeis, swapped_imeis};
use crate::request::{AttestationKeyRef, Reply, Request};
use crate::types::{
    model, Algorithm, Device, Error, ErrorCode, KeyCreationResult, KeyParameter, Param, Tag,
};

verus! {

/// The first interface version that takes a second IMEI.
pub const SECOND_IMEI_SINCE: i32 = 300;

/// The first interface version that takes the IMEIs in either order.
pub const IMEI_ORDER_FREE_SINCE: i32 = 500;

/// The error may come from IMEIs in the wrong order.
pub open spec fn is_id_mismatch(e: Error) -> bool {
    ||| e == Error::Km(ErrorCode::CannotAttestIds)
    ||| e == Error::Km(ErrorCode::InvalidTag)
    ||| e == Error::Km(ErrorCode::AttestationIdsNotProvisioned)
}

/// A second attempt can help: the device takes two IMEIs, in a fixed order, and one was asked
/// for.
pub open spec fn may_swap(level: KeystoreSecurityLevel, params: Seq<KeyParameter>) -> bool {
    &&& SECOND_IMEI_SINCE <= level.hw_info.version_number < IMEI_ORDER_FREE_SINCE
    &&& has_tag_among(model(params), level.rules.imei_tags@)
}

/// The generation of a key on the device of the security level.
pub enum GenerateRetry {
    First,
    /// With the IMEIs exchanged.
    Second(Vec<KeyParameter>),
    Done(Result<KeyCreationResult, Error>),
}

impl GenerateRetry {
    /// What the generation waits for, for these parameters and this attestation key.
    pub open spec fn asks<'a>(
        &'a self,
        params: &'a Vec<KeyParameter>,
        attest_key: Option<AttestationKeyRef<'a>>,
    ) -> Request<'a> {
        match self {
            GenerateRetry::First => Request::GenerateKey {
                device: Device::Own,
                params,
                attest_key,
            },
            GenerateRetry::Second(swapped) => Request::GenerateKey {
                device: Device::Own,
                params: swapped,
                attest_key,
            },
            GenerateRetry::Done(_) => Request::Nothing,
        }
    }

    /// The generation stands at `next` after a reply.
    pub open spec fn goes_to(
        self,
        level: KeystoreSecurityLevel,
        params: Seq<KeyParameter>,
        reply: Reply,
        next: GenerateRetry,
    ) -> bool {
        match (self, reply) {
            (GenerateRetry::First, Reply::Created(r)) => {
                if r is Err && is_id_mismatch(r->Err_0) && may_swap(level, params) {
                    &&& next matches GenerateRetry::Second(swapped)
                    &&& model(swapped@) == swapped_imeis(model(params))
                } else {
                    next == GenerateRetry::Done(r)
                }
            },
            (GenerateRetry::Second(_), Reply::Created(r)) => next == GenerateRetry::Done(r),
            _ => next == self,
        }
    }

    /// What the generation waits for, for these parameters and this attestation key.
    pub fn pending<'a>(
        &'a self,
        params: &'a Vec<KeyParameter>,
        attest_key: Option<AttestationKeyRef<'a>>,
    ) -> (r: Request<'a>)
        ensures
            r == self.asks(params, attest_key),
    {
        match self {
            GenerateRetry::First => Request::GenerateKey {
                device: Device::Own,
                params,
                attest_key,
            },
            GenerateRetry::Second(swapped) => Request::GenerateKey {
                device: Device::Own,
                params: swapped,
                attest_key,
            },
            GenerateRetry::Done(_) => Request::Nothing,
        }
    }

    /// Goes on from a reply.
    pub fn resume(
        self,
        level: &KeystoreSecurityLevel,
        params: &Vec<KeyParameter>,
        reply: Reply,
    ) -> (next: GenerateRetry)
        ensures
            self.goes_to(*level, params@, reply, next),
    {
        match self {
            GenerateRetry::First => match reply {
                Reply::Created(r) => level.after_first_attempt(params, r),
                _ => GenerateRetry::First,
            },
            GenerateRetry::Second(swapped) => match reply {
                Reply::Created(r) => GenerateRetry::Done(r),
                _ => GenerateRetry::Second(swapped),
            },
            GenerateRetry::Done(r) => GenerateRetry::Done(r),
        }
    }
}

impl KeystoreSecurityLevel {
    /// Starts the generation of a key, with a second attempt where that can help.
    pub fn generate_key_and_retry_on_att_id_mismatch(&self) -> (r: GenerateRetry)
        ensures
            r == GenerateRetry::First,
    {
        GenerateRetry::First
    }

    fn after_first_attempt(
        &self,
        params: &Vec<KeyParameter>,
        result: Result<KeyCreationResult, Error>,
    ) -> (next: GenerateRetry)
        ensures
            GenerateRetry::First.goes_to(*self, params@, Reply::Created(result), next),
    {
        match &result {
            Err(Error::Km(ErrorCode::CannotAttestIds))
            | Err(Error::Km(ErrorCode::InvalidTag))
            | Err(Error::Km(ErrorCode::AttestationIdsNotProvisioned)) => {},
            _ => return GenerateRetry::Done(result),
        }
        if self.hw_info.version_number < SECOND_IMEI_SINCE || self.hw_info.version_number
            >= IMEI_ORDER_FREE_SINCE || !contains_tag_among(
            params.as_slice(),
            self.rules.imei_tags.as_slice(),
        ) {
            return GenerateRetry::Done(result);
        }
        GenerateRetry::Second(swap_imeis(params.as_slice()))
    }
}

/// Exchanging the IMEIs twice gives back the parameters.
pub proof fn law_swapping_twice_changes_nothing(ps: Seq<Param>)
    ensures
        swapped_imeis(swapped_imeis(ps)) == ps,
{
    assert(swapped_imeis(swapped_imeis(ps)) =~= ps);
}

/// The device of the security level is asked for a key with these parameters and this attestation
/// key. Its answer is the result, unless it is one of the three errors that come of IMEIs in the
/// wrong order, the device has an interface from version 300 up to but not 500, and an IMEI was
/// asked for: then it is asked once more, for the same attestation key and with the IMEIs
/// exchanged.
pub proof fn law_attempts(
    level: KeystoreSecurityLevel,
    params: Vec<KeyParameter>,
    attest_key: Option<AttestationKeyRef>,
    r: Result<KeyCreationResult, Error>,
    next: GenerateRetry,
)
    requires
        GenerateRetry::First.goes_to(level, params@, Reply::Created(r), next),
    ensures
        GenerateRetry::First.asks(&params, attest_key) == (Request::GenerateKey {
            device: Device::Own,
            params: &params,
            attest_key,
        }),
        ({
            let again = (r == Err::<KeyCreationResult, Error>(Error::Km(ErrorCode::CannotAttestIds))
                || r == Err::<KeyCreationResult, Error>(Error::Km(ErrorCode::InvalidTag)) || r
                == Err::<KeyCreationResult, Error>(
                Error::Km(ErrorCode::AttestationIdsNotProvisioned),
            )) && 300 <= level.hw_info.version_number < 500 && exists|i: int, j: int|
                0 <= i < params@.len() && 0 <= j < level.rules.imei_tags@.len() && (
                #[trigger] params@[i]).tag == #[trigger] level.rules.imei_tags@[j];
            &&& !again ==> next == GenerateRetry::Done(r)
            &&& again ==> {
                &&& next.asks(&params, attest_key) matches Request::GenerateKey {
                    device,
                    params: swapped,
                    attest_key: key,
                }
                &&& device == Device::Own
                &&& key == attest_key
                &&& model(swapped@) == swapped_imeis(model(params@))
            }
        }),
{
    let ps = model(params@);
    let tags = level.rules.imei_tags@;
    law_tags_are_found_wherever_they_stand(ps, Tag::Purpose, tags, Algorithm::Rsa);
    if has_tag_among(ps, tags) {
        let (i, j) = choose|i: int, j: int|
            0 <= i < ps.len() && 0 <= j < tags.len() && (#[trigger] ps[i]).tag
                == #[trigger] tags[j];
        assert(params@[i].tag == tags[j]);
    }
    if exists|i: int, j: int|
        0 <= i < params@.len() && 0 <= j < tags.len() && (#[trigger] params@[i]).tag
            == #[trigger] tags[j] {
        let (i, j) = choose|i: int, j: int|
            0 <= i < params@.len() && 0 <= j < tags.len() && (#[trigger] params@[i]).tag
                == #[trigger] tags[j];
        assert(ps[i].tag == tags[j]);
    }
}

/// A reply that does not come from the device changes nothing.
pub proof fn law_attempts_wait_for_the_device(
    level: KeystoreSecurityLevel,
    params: Seq<KeyParameter>,
    retry: GenerateRetry,
    reply: Reply,
    next: GenerateRetry,
)
    requires
        retry.goes_to(level, params, reply, next),
        !(reply is Created) || retry is Done,
    ensures
        next == retry,
{
}

/// The device gets at most two attempts: after the reply to the second one there is a result.
pub proof fn law_at_most_two_attempts(
    level: KeystoreSecurityLevel,
    params: Seq<KeyParameter>,
    first: Result<KeyCreationResult, Error>,
    second: Result<KeyCreationResult, Error>,
    middle: GenerateRetry,
    end: GenerateRetry,
)
    requires
        GenerateRetry::First.goes_to(level, params, Reply::Created(first), middle),
        middle.goes_to(level, params, Reply::Created(second), end),
    ensures
        end == GenerateRetry::Done(
            if middle is Second {
                second
            } else {
                first
            },
        ),
{
}

/// A key that was made is never made again.
pub proof fn law_success_is_final(
    level: KeystoreSecurityLevel,
    params: Seq<KeyParameter>,
    created: KeyCreationResult,
    next: GenerateRetry,
)
    requires
        GenerateRetry::First.goes_to(level, params, Reply::Created(Ok(created)), next),
    ensures
        next == GenerateRetry::Done(Ok(created)),
{
}

} // verus!
