//! Rules on lists of key parameters: finding, filtering, and the defaults that a new key gets.

use vstd::prelude::*;
use crate::types::{
    model, Algorithm, AuthenticatorSpec, AuthenticatorType, EcCurve, Error, ErrorCode, KeyFormat,
    KeyParameter, KeyParameterValue, KeyPurpose, Param, ParamValue, Tag,
};

verus! {

/// The public exponent of an RSA key for which none was asked (the Fermat prime F4).
pub const DEFAULT_RSA_PUBLIC_EXPONENT: i64 = 65537;

/// The secure id that stands for "no such authenticator".
pub const NO_SECURE_ID: i64 = -1;

// ---------------------------------------------------------------------------------------
// Finding parameters
// ---------------------------------------------------------------------------------------
/// Some parameter has this tag.
pub open spec fn has_tag(ps: Seq<Param>, tag: Tag) -> bool {
    exists|i: int| 0 <= i < ps.len() && #[trigger] ps[i].tag == tag
}

/// Some parameter has a tag of this list.
pub open spec fn has_tag_among(ps: Seq<Param>, tags: Seq<Tag>) -> bool {
    exists|i: int| 0 <= i < ps.len() && tags.contains(#[trigger] ps[i].tag)
}

/// The parameter at `i` is the first one with this tag.
pub open spec fn is_first(ps: Seq<Param>, tag: Tag, i: int) -> bool {
    &&& 0 <= i < ps.len()
    &&& ps[i].tag == tag
    &&& forall|j: int| 0 <= j < i ==> #[trigger] ps[j].tag != tag
}

/// The value of the first parameter with this tag.
pub open spec fn first_value(ps: Seq<Param>, tag: Tag) -> Option<ParamValue> {
    if exists|i: int| is_first(ps, tag, i) {
        Some(ps[choose|i: int| is_first(ps, tag, i)].value)
    } else {
        None
    }
}

/// Some parameter names this algorithm.
pub open spec fn has_algorithm(ps: Seq<Param>, algorithm: Algorithm) -> bool {
    exists|i: int|
        0 <= i < ps.len() && (#[trigger] ps[i]) == (Param {
            tag: Tag::Algorithm,
            value: ParamValue::Algorithm(algorithm),
        })
}

/// Finding the first parameter with a tag pins its value, and every list that has the tag has
/// a first one.
pub proof fn lemma_first_value(ps: Seq<Param>, tag: Tag)
    ensures
        forall|i: int| is_first(ps, tag, i) ==> first_value(ps, tag) == Some(#[trigger] ps[i].value),
        has_tag(ps, tag) <==> first_value(ps, tag) is Some,
    decreases ps.len(),
{
    assert forall|i: int| is_first(ps, tag, i) implies first_value(ps, tag) == Some(
        #[trigger] ps[i].value,
    ) by {
        let k = choose|k: int| is_first(ps, tag, k);
        assert(is_first(ps, tag, k));
        if k < i {
            assert(ps[k].tag != tag);
        }
        if i < k {
            assert(ps[i].tag != tag);
        }
    }
    if has_tag(ps, tag) {
        let i = choose|i: int| 0 <= i < ps.len() && #[trigger] ps[i].tag == tag;
        lemma_first_exists(ps, tag, i);
    }
    if first_value(ps, tag) is Some {
        let k = choose|k: int| is_first(ps, tag, k);
        assert(ps[k].tag == tag);
    }
}

proof fn lemma_first_exists(ps: Seq<Param>, tag: Tag, i: int)
    requires
        0 <= i < ps.len(),
        ps[i].tag == tag,
    ensures
        exists|k: int| is_first(ps, tag, k),
    decreases i,
{
    if is_first(ps, tag, i) {
    } else {
        let j = choose|j: int| 0 <= j < i && #[trigger] ps[j].tag == tag;
        lemma_first_exists(ps, tag, j);
    }
}

/// The model of a list that got one more parameter.
pub proof fn lemma_model_push(v: Seq<KeyParameter>, p: KeyParameter)
    ensures
        model(v.push(p)) == model(v).push(p@),
{
    assert(model(v.push(p)) =~= model(v).push(p@));
}

/// Whether some parameter has this tag.
pub fn contains_tag(params: &[KeyParameter], tag: Tag) -> (r: bool)
    ensures
        r == has_tag(model(params@), tag),
{
    let mut i: usize = 0;
    while i < params.len()
        invariant
            i <= params@.len(),
            forall|j: int| 0 <= j < i ==> #[trigger] model(params@)[j].tag != tag,
        decreases params@.len() - i,
    {
        if params[i].tag == tag {
            assert(model(params@)[i as int].tag == tag);
            return true;
        }
        i += 1;
    }
    false
}

/// Whether this tag is in the list.
fn tag_in(tags: &[Tag], tag: Tag) -> (r: bool)
    ensures
        r == tags@.contains(tag),
{
    let mut i: usize = 0;
    while i < tags.len()
        invariant
            i <= tags@.len(),
            forall|j: int| 0 <= j < i ==> #[trigger] tags@[j] != tag,
        decreases tags@.len() - i,
    {
        if tags[i] == tag {
            assert(tags@[i as int] == tag);
            return true;
        }
        i += 1;
    }
    false
}

/// Whether some parameter has a tag of this list.
pub fn contains_tag_among(params: &[KeyParameter], tags: &[Tag]) -> (r: bool)
    ensures
        r == has_tag_among(model(params@), tags@),
{
    let mut i: usize = 0;
    while i < params.len()
        invariant
            i <= params@.len(),
            forall|j: int| 0 <= j < i ==> !tags@.contains(#[trigger] model(params@)[j].tag),
        decreases params@.len() - i,
    {
        if tag_in(tags, params[i].tag) {
            assert(tags@.contains(model(params@)[i as int].tag));
            return true;
        }
        i += 1;
    }
    false
}

/// The value of the first parameter with this tag.
pub fn find_value(params: &[KeyParameter], tag: Tag) -> (r: Option<&KeyParameterValue>)
    ensures
        match r {
            Some(v) => first_value(model(params@), tag) == Some(v@),
            None => first_value(model(params@), tag) is None,
        },
{
    proof {
        lemma_first_value(model(params@), tag);
    }
    let mut i: usize = 0;
    while i < params.len()
        invariant
            i <= params@.len(),
            forall|j: int| 0 <= j < i ==> #[trigger] model(params@)[j].tag != tag,
            forall|k: int|
                is_first(model(params@), tag, k) ==> first_value(model(params@), tag) == Some(
                    #[trigger] model(params@)[k].value,
                ),
            has_tag(model(params@), tag) <==> first_value(model(params@), tag) is Some,
        decreases params@.len() - i,
    {
        if params[i].tag == tag {
            assert(model(params@)[i as int] == params@[i as int]@);
            assert(is_first(model(params@), tag, i as int));
            return Some(&params[i].value);
        }
        assert(model(params@)[i as int].tag != tag);
        i += 1;
    }
    None
}

/// Whether some parameter names this algorithm.
pub fn contains_algorithm(params: &[KeyParameter], algorithm: Algorithm) -> (r: bool)
    ensures
        r == has_algorithm(model(params@), algorithm),
{
    let ghost wanted = Param { tag: Tag::Algorithm, value: ParamValue::Algorithm(algorithm) };
    let mut i: usize = 0;
    while i < params.len()
        invariant
            i <= params@.len(),
            wanted == (Param { tag: Tag::Algorithm, value: ParamValue::Algorithm(algorithm) }),
            forall|j: int| 0 <= j < i ==> #[trigger] model(params@)[j] != wanted,
        decreases params@.len() - i,
    {
        assert(model(params@)[i as int] == params@[i as int]@);
        if params[i].tag == Tag::Algorithm {
            if let KeyParameterValue::Algorithm(a) = params[i].value {
                if a == algorithm {
                    assert(model(params@)[i as int] == wanted);
                    return true;
                }
            }
        }
        i += 1;
    }
    false
}

// ---------------------------------------------------------------------------------------
// Elliptic curves
// ---------------------------------------------------------------------------------------
/// The parameter at `i` is the first one that names a curve under the curve tag. One with
/// that tag and a value of another kind is passed over.
pub open spec fn is_first_curve(ps: Seq<Param>, i: int) -> bool {
    &&& 0 <= i < ps.len()
    &&& names_curve(ps[i])
    &&& forall|j: int| 0 <= j < i ==> !names_curve(#[trigger] ps[j])
}

/// The parameter names a curve.
pub open spec fn names_curve(p: Param) -> bool {
    p.tag == Tag::EcCurve && p.value is EcCurve
}

/// The size in bits of a key on this curve.
pub open spec fn curve_size(curve: EcCurve) -> Option<i32> {
    match curve {
        EcCurve::P224 => Some(224),
        EcCurve::P256 => Some(256),
        EcCurve::Curve25519 => Some(256),
        EcCurve::P384 => Some(384),
        EcCurve::P521 => Some(521),
        EcCurve::Other(_) => None,
    }
}

/// The key size that follows from the first curve that the parameters name.
pub open spec fn ec_key_size(ps: Seq<Param>) -> Option<i32> {
    if exists|i: int| is_first_curve(ps, i) {
        curve_size(ps[choose|i: int| is_first_curve(ps, i)].value->EcCurve_0)
    } else {
        None
    }
}

pub proof fn lemma_first_curve(ps: Seq<Param>, i: int)
    requires
        is_first_curve(ps, i),
    ensures
        ec_key_size(ps) == curve_size(ps[i].value->EcCurve_0),
{
    let k = choose|k: int| is_first_curve(ps, k);
    assert(is_first_curve(ps, k));
    if k < i {
        assert(!names_curve(ps[k]));
    }
    if i < k {
        assert(!names_curve(ps[i]));
    }
}

/// The key size that follows from the curve among the parameters, if one is named and known.
pub fn derive_ec_key_size_from_curve(params: &[KeyParameter]) -> (r: Option<i32>)
    ensures
        r == ec_key_size(model(params@)),
{
    let mut i: usize = 0;
    while i < params.len()
        invariant
            i <= params@.len(),
            forall|j: int| 0 <= j < i ==> !names_curve(#[trigger] model(params@)[j]),
        decreases params@.len() - i,
    {
        assert(model(params@)[i as int] == params@[i as int]@);
        if params[i].tag == Tag::EcCurve {
            if let KeyParameterValue::EcCurve(curve) = params[i].value {
                proof {
                    lemma_first_curve(model(params@), i as int);
                }
                return match curve {
                    EcCurve::P224 => Some(224),
                    EcCurve::P256 | EcCurve::Curve25519 => Some(256),
                    EcCurve::P384 => Some(384),
                    EcCurve::P521 => Some(521),
                    _ => None,
                };
            }
        }
        i += 1;
    }
    assert(!exists|k: int| is_first_curve(model(params@), k)) by {
        if exists|k: int| is_first_curve(model(params@), k) {
            let k = choose|k: int| is_first_curve(model(params@), k);
            assert(names_curve(model(params@)[k]));
        }
    }
    None
}

// ---------------------------------------------------------------------------------------
// The purpose of an operation
// ---------------------------------------------------------------------------------------
/// The purpose of an operation: the value of the first purpose parameter. Without one, or with
/// one whose value is no purpose, the argument is invalid.
pub open spec fn purpose_of(ps: Seq<Param>) -> Result<KeyPurpose, Error> {
    match first_value(ps, Tag::Purpose) {
        Some(ParamValue::KeyPurpose(p)) => Ok(p),
        _ => Err(Error::Km(ErrorCode::InvalidArgument)),
    }
}

/// The parameters without those that have this tag, in their order.
pub open spec fn without_tag(ps: Seq<Param>, tag: Tag) -> Seq<Param> {
    ps.filter(|p: Param| p.tag != tag)
}

/// The purpose of an operation.
pub fn operation_purpose(params: &[KeyParameter]) -> (r: Result<KeyPurpose, Error>)
    ensures
        r == purpose_of(model(params@)),
{
    match find_value(params, Tag::Purpose) {
        Some(KeyParameterValue::KeyPurpose(p)) => Ok(*p),
        _ => Err(Error::Km(ErrorCode::InvalidArgument)),
    }
}

/// A copy of a parameter.
pub fn copy_parameter(p: &KeyParameter) -> (r: KeyParameter)
    ensures
        r@ == p@,
{
    let value = match &p.value {
        KeyParameterValue::Algorithm(a) => KeyParameterValue::Algorithm(*a),
        KeyParameterValue::EcCurve(c) => KeyParameterValue::EcCurve(*c),
        KeyParameterValue::KeyPurpose(k) => KeyParameterValue::KeyPurpose(*k),
        KeyParameterValue::BoolValue(b) => KeyParameterValue::BoolValue(*b),
        KeyParameterValue::Integer(i) => KeyParameterValue::Integer(*i),
        KeyParameterValue::LongInteger(i) => KeyParameterValue::LongInteger(*i),
        KeyParameterValue::DateTime(t) => KeyParameterValue::DateTime(*t),
        KeyParameterValue::Blob(b) => {
            let bytes = b.clone();
            assert(bytes@ =~= b@);
            KeyParameterValue::Blob(bytes)
        },
        KeyParameterValue::Other(k, v) => KeyParameterValue::Other(*k, *v),
    };
    KeyParameter { tag: p.tag, value }
}

/// The parameters without the purpose, which some devices do not take when an operation
/// begins.
pub fn without_purpose(params: &[KeyParameter]) -> (r: Vec<KeyParameter>)
    ensures
        model(r@) == without_tag(model(params@), Tag::Purpose),
{
    let mut out: Vec<KeyParameter> = Vec::new();
    let mut i: usize = 0;
    let ghost keep = |p: Param| p.tag != Tag::Purpose;
    let ghost all = model(params@);
    proof {
        reveal(Seq::filter);
        assert(model(out@) =~= all.take(0).filter(keep));
    }
    while i < params.len()
        invariant
            i <= params@.len(),
            all == model(params@),
            keep == (|p: Param| p.tag != Tag::Purpose),
            model(out@) == all.take(i as int).filter(keep),
        decreases params@.len() - i,
    {
        proof {
            reveal(Seq::filter);
            assert(all.take(i + 1).drop_last() =~= all.take(i as int));
            assert(all.take(i + 1).last() == params@[i as int]@);
        }
        if params[i].tag != Tag::Purpose {
            let copy = copy_parameter(&params[i]);
            proof {
                lemma_model_push(out@, copy);
            }
            out.push(copy);
        }
        i += 1;
    }
    assert(all.take(i as int) =~= all);
    out
}

// ---------------------------------------------------------------------------------------
// The two IMEIs
// ---------------------------------------------------------------------------------------
/// The tag with the roles of the two IMEIs exchanged.
pub open spec fn swapped_tag(tag: Tag) -> Tag {
    match tag {
        Tag::AttestationIdImei => Tag::AttestationIdSecondImei,
        Tag::AttestationIdSecondImei => Tag::AttestationIdImei,
        _ => tag,
    }
}

/// The parameters with the roles of the two IMEIs exchanged; values and order stay.
pub open spec fn swapped_imeis(ps: Seq<Param>) -> Seq<Param> {
    ps.map_values(|p: Param| Param { tag: swapped_tag(p.tag), value: p.value })
}

/// The parameters with the roles of the two IMEIs exchanged.
pub fn swap_imeis(params: &[KeyParameter]) -> (r: Vec<KeyParameter>)
    ensures
        model(r@) == swapped_imeis(model(params@)),
{
    let mut out: Vec<KeyParameter> = Vec::new();
    let mut i: usize = 0;
    while i < params.len()
        invariant
            i <= params@.len(),
            out@.len() == i,
            forall|j: int|
                0 <= j < i ==> (#[trigger] out@[j])@ == (Param {
                    tag: swapped_tag(params@[j].tag),
                    value: params@[j].value@,
                }),
        decreases params@.len() - i,
    {
        let mut p = copy_parameter(&params[i]);
        match p.tag {
            Tag::AttestationIdImei => {
                p.tag = Tag::AttestationIdSecondImei;
            },
            Tag::AttestationIdSecondImei => {
                p.tag = Tag::AttestationIdImei;
            },
            _ => {},
        }
        out.push(p);
        i += 1;
    }
    assert(model(out@) =~= swapped_imeis(model(params@)));
    out
}

// ---------------------------------------------------------------------------------------
// Defaults for asymmetric keys
// ---------------------------------------------------------------------------------------
/// The subject of a certificate for which none was asked: the DER encoding of the name
/// "CN=Android Keystore Key".
pub open spec fn default_cert_subject() -> Seq<u8> {
    seq![
        0x30u8, 0x1f, 0x31, 0x1d, 0x30, 0x1b, 0x06, 0x03, 0x55, 0x04, 0x03, 0x0c, 0x14, 0x41, 0x6e,
        0x64, 0x72, 0x6f, 0x69, 0x64, 0x20, 0x4b, 0x65, 0x79, 0x73, 0x74, 0x6f, 0x72, 0x65, 0x20,
        0x4b, 0x65, 0x79,
    ]
}

/// The first algorithm parameter names an algorithm with a public key.
pub open spec fn is_asymmetric(ps: Seq<Param>) -> bool {
    match first_value(ps, Tag::Algorithm) {
        Some(ParamValue::Algorithm(a)) => a == Algorithm::Rsa || a == Algorithm::Ec || a
            == Algorithm::MlDsa,
        _ => false,
    }
}

/// One parameter, or none.
pub open spec fn only_if(wanted: bool, tag: Tag, value: ParamValue) -> Seq<Param> {
    if wanted {
        seq![Param { tag, value }]
    } else {
        seq![]
    }
}

/// What an asymmetric key is given where the caller asked for nothing: the certificate's
/// subject and validity, the exponent of an RSA key, and the size of an EC key whose curve is
/// known.
pub open spec fn asymmetric_defaults(ps: Seq<Param>, undefined_not_after: i64) -> Seq<Param> {
    if is_asymmetric(ps) {
        only_if(
            !has_tag(ps, Tag::CertificateSubject),
            Tag::CertificateSubject,
            ParamValue::Blob(default_cert_subject()),
        ) + only_if(
            !has_tag(ps, Tag::CertificateNotBefore),
            Tag::CertificateNotBefore,
            ParamValue::DateTime(0),
        ) + only_if(
            !has_tag(ps, Tag::CertificateNotAfter),
            Tag::CertificateNotAfter,
            ParamValue::DateTime(undefined_not_after),
        ) + only_if(
            has_algorithm(ps, Algorithm::Rsa) && !has_tag(ps, Tag::RsaPublicExponent),
            Tag::RsaPublicExponent,
            ParamValue::LongInteger(DEFAULT_RSA_PUBLIC_EXPONENT),
        ) + only_if(
            has_algorithm(ps, Algorithm::Ec) && !has_tag(ps, Tag::KeySize) && ec_key_size(
                ps,
            ) is Some,
            Tag::KeySize,
            ParamValue::Integer(ec_key_size(ps)->0),
        )
    } else {
        seq![]
    }
}

/// The bytes of the default certificate subject.
pub fn default_cert_subject_der() -> (r: Vec<u8>)
    ensures
        r@ == default_cert_subject(),
{
    let der: Vec<u8> = vec![
        0x30, 0x1f, 0x31, 0x1d, 0x30, 0x1b, 0x06, 0x03, 0x55, 0x04, 0x03, 0x0c, 0x14, 0x41, 0x6e,
        0x64, 0x72, 0x6f, 0x69, 0x64, 0x20, 0x4b, 0x65, 0x79, 0x73, 0x74, 0x6f, 0x72, 0x65, 0x20,
        0x4b, 0x65, 0x79,
    ];
    assert(der@ =~= default_cert_subject());
    der
}

/// Appends a parameter.
pub fn add_parameter(list: &mut Vec<KeyParameter>, tag: Tag, value: KeyParameterValue)
    ensures
        model(final(list)@) == model(old(list)@).push(Param { tag, value: value@ }),
{
    proof {
        lemma_model_push(list@, KeyParameter { tag, value });
    }
    list.push(KeyParameter { tag, value });
}

/// Appends a parameter where it is wanted.
fn add_only_if(wanted: bool, list: &mut Vec<KeyParameter>, tag: Tag, value: KeyParameterValue)
    ensures
        model(final(list)@) == model(old(list)@) + only_if(wanted, tag, value@),
{
    if wanted {
        add_parameter(list, tag, value);
    }
    assert(model(list@) =~= model(old(list)@) + only_if(wanted, tag, value@));
}

/// Appends to `added` the defaults for an asymmetric key with these parameters.
pub fn add_asymmetric_defaults(
    params: &[KeyParameter],
    undefined_not_after: i64,
    added: &mut Vec<KeyParameter>,
)
    ensures
        model(final(added)@) == model(old(added)@) + asymmetric_defaults(
            model(params@),
            undefined_not_after,
        ),
{
    let asymmetric = match find_value(params, Tag::Algorithm) {
        Some(KeyParameterValue::Algorithm(a)) => *a == Algorithm::Rsa || *a == Algorithm::Ec || *a
            == Algorithm::MlDsa,
        _ => false,
    };
    if asymmetric {
        add_only_if(
            !contains_tag(params, Tag::CertificateSubject),
            added,
            Tag::CertificateSubject,
            KeyParameterValue::Blob(default_cert_subject_der()),
        );
        add_only_if(
            !contains_tag(params, Tag::CertificateNotBefore),
            added,
            Tag::CertificateNotBefore,
            KeyParameterValue::DateTime(0),
        );
        add_only_if(
            !contains_tag(params, Tag::CertificateNotAfter),
            added,
            Tag::CertificateNotAfter,
            KeyParameterValue::DateTime(undefined_not_after),
        );
        add_only_if(
            contains_algorithm(params, Algorithm::Rsa) && !contains_tag(
                params,
                Tag::RsaPublicExponent,
            ),
            added,
            Tag::RsaPublicExponent,
            KeyParameterValue::LongInteger(DEFAULT_RSA_PUBLIC_EXPONENT),
        );
        if contains_algorithm(params, Algorithm::Ec) && !contains_tag(params, Tag::KeySize) {
            if let Some(size) = derive_ec_key_size_from_curve(params) {
                add_parameter(added, Tag::KeySize, KeyParameterValue::Integer(size));
            }
        }
    }
    assert(model(added@) =~= model(old(added)@) + asymmetric_defaults(
        model(params@),
        undefined_not_after,
    ));
}

// ---------------------------------------------------------------------------------------
// Imports
// ---------------------------------------------------------------------------------------
/// The encoding in which the material of a key with these parameters is imported: raw bytes
/// for a symmetric key, PKCS#8 for an asymmetric one. Without an algorithm, or with one that
/// is not known, the argument is invalid.
pub open spec fn import_format_of(ps: Seq<Param>) -> Result<KeyFormat, Error> {
    match first_value(ps, Tag::Algorithm) {
        Some(ParamValue::Algorithm(a)) => match a {
            Algorithm::Aes | Algorithm::Hmac | Algorithm::TripleDes => Ok(KeyFormat::Raw),
            Algorithm::Rsa | Algorithm::Ec | Algorithm::MlDsa => Ok(KeyFormat::Pkcs8),
            Algorithm::Other(_) => Err(Error::Km(ErrorCode::InvalidArgument)),
        },
        _ => Err(Error::Km(ErrorCode::InvalidArgument)),
    }
}

/// The encoding in which the material of a key with these parameters is imported.
pub fn import_format(params: &[KeyParameter]) -> (r: Result<KeyFormat, Error>)
    ensures
        r == import_format_of(model(params@)),
{
    match find_value(params, Tag::Algorithm) {
        Some(KeyParameterValue::Algorithm(a)) => match *a {
            Algorithm::Aes | Algorithm::Hmac | Algorithm::TripleDes => Ok(KeyFormat::Raw),
            Algorithm::Rsa | Algorithm::Ec | Algorithm::MlDsa => Ok(KeyFormat::Pkcs8),
            Algorithm::Other(_) => Err(Error::Km(ErrorCode::InvalidArgument)),
        },
        _ => Err(Error::Km(ErrorCode::InvalidArgument)),
    }
}

/// The authenticator at `i` is the first one of its kind.
pub open spec fn is_first_of_kind(
    specs: Seq<AuthenticatorSpec>,
    kind: AuthenticatorType,
    i: int,
) -> bool {
    &&& 0 <= i < specs.len()
    &&& specs[i].authenticator_type == kind
    &&& forall|j: int| 0 <= j < i ==> #[trigger] specs[j].authenticator_type != kind
}

/// The secure id of the first authenticator of a kind, or the id that stands for none.
pub open spec fn secure_id(specs: Seq<AuthenticatorSpec>, kind: AuthenticatorType) -> i64 {
    if exists|i: int| is_first_of_kind(specs, kind, i) {
        specs[choose|i: int| is_first_of_kind(specs, kind, i)].authenticator_id
    } else {
        NO_SECURE_ID
    }
}

/// The secure id of the first authenticator of a kind, or the id that stands for none.
pub fn secure_id_of(specs: &[AuthenticatorSpec], kind: AuthenticatorType) -> (r: i64)
    ensures
        r == secure_id(specs@, kind),
{
    let mut i: usize = 0;
    while i < specs.len()
        invariant
            i <= specs@.len(),
            forall|j: int| 0 <= j < i ==> #[trigger] specs@[j].authenticator_type != kind,
        decreases specs@.len() - i,
    {
        if specs[i].authenticator_type == kind {
            assert(is_first_of_kind(specs@, kind, i as int));
            assert forall|k: int| is_first_of_kind(specs@, kind, k) implies k == i by {
                if k < i {
                    assert(specs@[k].authenticator_type != kind);
                }
                if i < k {
                    assert(specs@[i as int].authenticator_type != kind);
                }
            }
            return specs[i].authenticator_id;
        }
        i += 1;
    }
    assert(!exists|k: int| is_first_of_kind(specs@, kind, k)) by {
        if exists|k: int| is_first_of_kind(specs@, kind, k) {
            let k = choose|k: int| is_first_of_kind(specs@, kind, k);
            assert(specs@[k].authenticator_type == kind);
        }
    }
    NO_SECURE_ID
}

// ---------------------------------------------------------------------------------------
// Laws
// ---------------------------------------------------------------------------------------
/// A default is added only for a tag that the caller did not give, and for no tag twice.
pub proof fn law_defaults_leave_the_callers_choice(ps: Seq<Param>, undefined_not_after: i64)
    ensures
        forall|i: int|
            0 <= i < asymmetric_defaults(ps, undefined_not_after).len() ==> !has_tag(
                ps,
                (#[trigger] asymmetric_defaults(ps, undefined_not_after)[i]).tag,
            ),
        forall|i: int, j: int|
            0 <= i < j < asymmetric_defaults(ps, undefined_not_after).len() ==> (
            #[trigger] asymmetric_defaults(ps, undefined_not_after)[i]).tag != (
            #[trigger] asymmetric_defaults(ps, undefined_not_after)[j]).tag,
{
}

/// A key that is not asymmetric gets no defaults.
pub proof fn law_no_defaults_without_a_public_key(ps: Seq<Param>, undefined_not_after: i64)
    requires
        !is_asymmetric(ps),
    ensures
        asymmetric_defaults(ps, undefined_not_after) == Seq::<Param>::empty(),
{
}

/// Without the purpose, no parameter is one, every other one is still there in its order, and
/// taking the purpose out once more changes nothing.
pub proof fn law_purpose_is_gone(ps: Seq<Param>)
    ensures
        !has_tag(without_tag(ps, Tag::Purpose), Tag::Purpose),
        forall|i: int|
            0 <= i < ps.len() && ps[i].tag != Tag::Purpose ==> without_tag(
                ps,
                Tag::Purpose,
            ).contains(#[trigger] ps[i]),
        without_tag(without_tag(ps, Tag::Purpose), Tag::Purpose) == without_tag(ps, Tag::Purpose),
{
    broadcast use vstd::seq_lib::group_filter_ensures;

    let keep = |p: Param| p.tag != Tag::Purpose;
    let rest = ps.filter(keep);
    assert forall|i: int| 0 <= i < rest.len() implies (#[trigger] rest[i]).tag != Tag::Purpose by {
        assert(keep(rest[i]));
    }
    assert forall|i: int| 0 <= i < ps.len() && ps[i].tag != Tag::Purpose implies rest.contains(
        #[trigger] ps[i],
    ) by {
        assert(keep(ps[i]));
    }
    lemma_filter_of_kept(rest, keep);
}

proof fn lemma_filter_of_kept(ps: Seq<Param>, keep: spec_fn(Param) -> bool)
    requires
        forall|i: int| 0 <= i < ps.len() ==> keep(#[trigger] ps[i]),
    ensures
        ps.filter(keep) == ps,
    decreases ps.len(),
{
    reveal(Seq::filter);
    if ps.len() > 0 {
        assert forall|i: int| 0 <= i < ps.drop_last().len() implies keep(
            #[trigger] ps.drop_last()[i],
        ) by {
            assert(ps.drop_last()[i] == ps[i]);
        }
        lemma_filter_of_kept(ps.drop_last(), keep);
        assert(keep(ps[ps.len() - 1]));
        assert(ps.drop_last().push(ps.last()) =~= ps);
    } else {
        assert(ps.filter(keep) =~= ps);
    }
}

/// What comes after the parameters of the caller does not change a value that is among them.
pub proof fn law_additions_do_not_change_a_given_value(ps: Seq<Param>, more: Seq<Param>, tag: Tag)
    requires
        has_tag(ps, tag),
    ensures
        first_value(ps + more, tag) == first_value(ps, tag),
        tag == Tag::Algorithm ==> import_format_of(ps + more) == import_format_of(ps),
{
    lemma_first_value(ps, tag);
    lemma_first_value(ps + more, tag);
    let i = choose|i: int| is_first(ps, tag, i);
    assert(is_first(ps, tag, i));
    assert forall|j: int| 0 <= j < i implies #[trigger] (ps + more)[j].tag != tag by {
        assert((ps + more)[j] == ps[j]);
    }
    assert(is_first(ps + more, tag, i));
    assert((ps + more)[i].value == ps[i].value);
}

/// A list that has its defaults gets no further ones.
pub proof fn law_defaults_are_added_once(ps: Seq<Param>, undefined_not_after: i64)
    ensures
        asymmetric_defaults(
            ps + asymmetric_defaults(ps, undefined_not_after),
            undefined_not_after,
        ) == Seq::<Param>::empty(),
{
    let more = asymmetric_defaults(ps, undefined_not_after);
    let all = ps + more;
    if is_asymmetric(ps) {
        lemma_first_value(ps, Tag::Algorithm);
        law_additions_do_not_change_a_given_value(ps, more, Tag::Algorithm);
        lemma_tags_of_sum(ps, more);
        lemma_no_default_names(ps, undefined_not_after);
        lemma_same_algorithms(ps, more, Algorithm::Rsa);
        lemma_same_algorithms(ps, more, Algorithm::Ec);
        lemma_same_ec_key_size(ps, more);
        let subject = only_if(
            !has_tag(ps, Tag::CertificateSubject),
            Tag::CertificateSubject,
            ParamValue::Blob(default_cert_subject()),
        );
        let not_before = only_if(
            !has_tag(ps, Tag::CertificateNotBefore),
            Tag::CertificateNotBefore,
            ParamValue::DateTime(0),
        );
        let not_after = only_if(
            !has_tag(ps, Tag::CertificateNotAfter),
            Tag::CertificateNotAfter,
            ParamValue::DateTime(undefined_not_after),
        );
        let exponent = only_if(
            has_algorithm(ps, Algorithm::Rsa) && !has_tag(ps, Tag::RsaPublicExponent),
            Tag::RsaPublicExponent,
            ParamValue::LongInteger(DEFAULT_RSA_PUBLIC_EXPONENT),
        );
        let size = only_if(
            has_algorithm(ps, Algorithm::Ec) && !has_tag(ps, Tag::KeySize) && ec_key_size(
                ps,
            ) is Some,
            Tag::KeySize,
            ParamValue::Integer(ec_key_size(ps)->0),
        );
        assert(more == subject + not_before + not_after + exponent + size);
        lemma_tags_of_sum(subject + not_before + not_after + exponent, size);
        lemma_tags_of_sum(subject + not_before + not_after, exponent);
        lemma_tags_of_sum(subject + not_before, not_after);
        lemma_tags_of_sum(subject, not_before);
        assert(has_tag(all, Tag::CertificateSubject)) by {
            if !has_tag(ps, Tag::CertificateSubject) {
                assert(subject[0].tag == Tag::CertificateSubject);
            }
        }
        assert(has_tag(all, Tag::CertificateNotBefore)) by {
            if !has_tag(ps, Tag::CertificateNotBefore) {
                assert(not_before[0].tag == Tag::CertificateNotBefore);
            }
        }
        assert(has_tag(all, Tag::CertificateNotAfter)) by {
            if !has_tag(ps, Tag::CertificateNotAfter) {
                assert(not_after[0].tag == Tag::CertificateNotAfter);
            }
        }
        assert(has_algorithm(all, Algorithm::Rsa) ==> has_tag(all, Tag::RsaPublicExponent)) by {
            if has_algorithm(ps, Algorithm::Rsa) && !has_tag(ps, Tag::RsaPublicExponent) {
                assert(exponent[0].tag == Tag::RsaPublicExponent);
            }
        }
        assert(has_algorithm(all, Algorithm::Ec) && ec_key_size(all) is Some ==> has_tag(
            all,
            Tag::KeySize,
        )) by {
            if has_algorithm(ps, Algorithm::Ec) && !has_tag(ps, Tag::KeySize) && ec_key_size(
                ps,
            ) is Some {
                assert(size[0].tag == Tag::KeySize);
            }
        }
        assert(asymmetric_defaults(all, undefined_not_after) =~= seq![]);
    } else {
        assert(all =~= ps);
    }
}

/// A list that is joined from two has the tags of both.
pub proof fn lemma_tags_of_sum(ps: Seq<Param>, more: Seq<Param>)
    ensures
        forall|tag: Tag| #[trigger]
            has_tag(ps + more, tag) <==> has_tag(ps, tag) || has_tag(more, tag),
        forall|tags: Seq<Tag>| #[trigger]
            has_tag_among(ps + more, tags) <==> has_tag_among(ps, tags) || has_tag_among(
                more,
                tags,
            ),
{
    let all = ps + more;
    assert forall|tag: Tag| #[trigger] has_tag(all, tag) <==> has_tag(ps, tag) || has_tag(
        more,
        tag,
    ) by {
        if has_tag(ps, tag) {
            let i = choose|i: int| 0 <= i < ps.len() && #[trigger] ps[i].tag == tag;
            assert(all[i].tag == tag);
        }
        if has_tag(more, tag) {
            let i = choose|i: int| 0 <= i < more.len() && #[trigger] more[i].tag == tag;
            assert(all[ps.len() + i].tag == tag);
        }
        if has_tag(all, tag) {
            let i = choose|i: int| 0 <= i < all.len() && #[trigger] all[i].tag == tag;
            if i < ps.len() {
                assert(ps[i].tag == tag);
            } else {
                assert(more[i - ps.len()].tag == tag);
            }
        }
    }
    assert forall|tags: Seq<Tag>| #[trigger]
        has_tag_among(all, tags) <==> has_tag_among(ps, tags) || has_tag_among(more, tags) by {
        if has_tag_among(ps, tags) {
            let i = choose|i: int| 0 <= i < ps.len() && tags.contains(#[trigger] ps[i].tag);
            assert(tags.contains(all[i].tag));
        }
        if has_tag_among(more, tags) {
            let i = choose|i: int| 0 <= i < more.len() && tags.contains(#[trigger] more[i].tag);
            assert(tags.contains(all[ps.len() + i].tag));
        }
        if has_tag_among(all, tags) {
            let i = choose|i: int| 0 <= i < all.len() && tags.contains(#[trigger] all[i].tag);
            if i < ps.len() {
                assert(tags.contains(ps[i].tag));
            } else {
                assert(tags.contains(more[i - ps.len()].tag));
            }
        }
    }
}

/// No default names an algorithm or a curve.
proof fn lemma_no_default_names(ps: Seq<Param>, undefined_not_after: i64)
    ensures
        forall|i: int|
            0 <= i < asymmetric_defaults(ps, undefined_not_after).len() ==> {
                let tag = (#[trigger] asymmetric_defaults(ps, undefined_not_after)[i]).tag;
                tag != Tag::Algorithm && tag != Tag::EcCurve
            },
{
}

proof fn lemma_same_algorithms(ps: Seq<Param>, more: Seq<Param>, algorithm: Algorithm)
    requires
        forall|i: int| 0 <= i < more.len() ==> (#[trigger] more[i]).tag != Tag::Algorithm,
    ensures
        has_algorithm(ps + more, algorithm) == has_algorithm(ps, algorithm),
{
    let wanted = Param { tag: Tag::Algorithm, value: ParamValue::Algorithm(algorithm) };
    let all = ps + more;
    if has_algorithm(ps, algorithm) {
        let i = choose|i: int| 0 <= i < ps.len() && (#[trigger] ps[i]) == wanted;
        assert(all[i] == wanted);
    }
    if has_algorithm(all, algorithm) {
        let i = choose|i: int| 0 <= i < all.len() && (#[trigger] all[i]) == wanted;
        if i >= ps.len() {
            assert(more[i - ps.len()].tag != Tag::Algorithm);
        }
        assert(ps[i] == wanted);
    }
}

proof fn lemma_same_ec_key_size(ps: Seq<Param>, more: Seq<Param>)
    requires
        forall|i: int| 0 <= i < more.len() ==> (#[trigger] more[i]).tag != Tag::EcCurve,
    ensures
        ec_key_size(ps + more) == ec_key_size(ps),
{
    let all = ps + more;
    if exists|i: int| is_first_curve(ps, i) {
        let i = choose|i: int| is_first_curve(ps, i);
        assert forall|j: int| 0 <= j < i implies !names_curve(#[trigger] all[j]) by {
            assert(all[j] == ps[j]);
        }
        assert(is_first_curve(all, i));
        lemma_first_curve(ps, i);
        lemma_first_curve(all, i);
    } else if exists|i: int| is_first_curve(all, i) {
        let i = choose|i: int| is_first_curve(all, i);
        if i >= ps.len() {
            assert(more[i - ps.len()].tag != Tag::EcCurve);
        }
        assert forall|j: int| 0 <= j < i implies !names_curve(#[trigger] ps[j]) by {
            assert(all[j] == ps[j]);
        }
        assert(is_first_curve(ps, i));
    }
}

/// An import has an encoding only where an algorithm is among the parameters.
pub proof fn lemma_import_format_needs_an_algorithm(ps: Seq<Param>)
    requires
        import_format_of(ps) is Ok,
    ensures
        has_tag(ps, Tag::Algorithm),
{
    lemma_first_value(ps, Tag::Algorithm);
}

} // verus!
