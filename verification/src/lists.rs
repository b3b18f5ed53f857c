//! What the rules on lists of parameters come to, said of the lists themselves.

use vstd::prelude::*;
use crate::params::{
    asymmetric_defaults, default_cert_subject, ec_key_size, first_value, has_algorithm, has_tag,
    has_tag_among, import_format_of, is_asymmetric, is_first, is_first_curve, is_first_of_kind,
    lemma_first_curve, lemma_first_value, names_curve, purpose_of, secure_id, swapped_imeis,
    without_tag,
};
use crate::types::{
    model, Algorithm, AuthenticatorSpec, AuthenticatorType, EcCurve, Error, ErrorCode, KeyFormat,
    KeyParameter, KeyParameterValue, KeyPurpose, Param, ParamValue, Tag,
};

verus! {

/// The parameter at `i` is the one that decides for its tag: none before it has that tag.
pub open spec fn decides(ps: Seq<Param>, i: int, tag: Tag) -> bool {
    0 <= i < ps.len() && ps[i].tag == tag && forall|j: int|
        0 <= j < i ==> (#[trigger] ps[j]).tag != tag
}

/// Some parameter is just this one.
pub open spec fn holds(ps: Seq<Param>, tag: Tag, value: ParamValue) -> bool {
    exists|i: int| 0 <= i < ps.len() && #[trigger] ps[i] == (Param { tag, value })
}

/// No parameter has this tag.
pub open spec fn lacks(ps: Seq<Param>, tag: Tag) -> bool {
    forall|i: int| 0 <= i < ps.len() ==> (#[trigger] ps[i]).tag != tag
}

/// This is an algorithm with a public key.
pub open spec fn has_public_key(value: ParamValue) -> bool {
    ||| value == ParamValue::Algorithm(Algorithm::Rsa)
    ||| value == ParamValue::Algorithm(Algorithm::Ec)
    ||| value == ParamValue::Algorithm(Algorithm::MlDsa)
}

/// A tag is found wherever it stands in a list, and nowhere else; and so are a tag of several,
/// and an algorithm.
pub proof fn law_tags_are_found_wherever_they_stand(
    ps: Seq<Param>,
    tag: Tag,
    tags: Seq<Tag>,
    algorithm: Algorithm,
)
    ensures
        has_tag(ps, tag) <==> !lacks(ps, tag),
        has_tag_among(ps, tags) <==> exists|i: int, j: int|
            0 <= i < ps.len() && 0 <= j < tags.len() && (#[trigger] ps[i]).tag
                == #[trigger] tags[j],
        has_algorithm(ps, algorithm) <==> holds(
            ps,
            Tag::Algorithm,
            ParamValue::Algorithm(algorithm),
        ),
{
    if has_tag_among(ps, tags) {
        let i = choose|i: int| 0 <= i < ps.len() && tags.contains(#[trigger] ps[i].tag);
        let j = choose|j: int| 0 <= j < tags.len() && #[trigger] tags[j] == ps[i].tag;
        assert(ps[i].tag == tags[j]);
    }
    if exists|i: int, j: int|
        0 <= i < ps.len() && 0 <= j < tags.len() && (#[trigger] ps[i]).tag == #[trigger] tags[j] {
        let (i, j) = choose|i: int, j: int|
            0 <= i < ps.len() && 0 <= j < tags.len() && (#[trigger] ps[i]).tag
                == #[trigger] tags[j];
        assert(tags.contains(ps[i].tag));
    }
}

proof fn lemma_decides(ps: Seq<Param>, i: int, tag: Tag)
    requires
        decides(ps, i, tag),
    ensures
        is_first(ps, tag, i),
        first_value(ps, tag) == Some(ps[i].value),
        has_tag(ps, tag),
{
    lemma_first_value(ps, tag);
    assert(is_first(ps, tag, i));
    assert(ps[i].tag == tag);
}

proof fn lemma_lacks(ps: Seq<Param>, tag: Tag)
    requires
        lacks(ps, tag),
    ensures
        !has_tag(ps, tag),
        first_value(ps, tag) is None,
{
    lemma_first_value(ps, tag);
}

/// The model of a list loses nothing but the identity of its byte strings: it has one parameter for
/// each, in the same order, and parameters with the same model have the same tag and the same
/// value.
pub proof fn law_model_is_faithful(list: Seq<KeyParameter>, i: int, p: KeyParameter)
    requires
        0 <= i < list.len(),
    ensures
        model(list).len() == list.len(),
        model(list)[i].tag == list[i].tag,
        model(list)[i] == model(seq![p])[0] ==> {
            &&& list[i].tag == p.tag
            &&& match (list[i].value, p.value) {
                (KeyParameterValue::Blob(a), KeyParameterValue::Blob(b)) => a@ == b@,
                (a, b) => a == b,
            }
        },
{
    assert(model(seq![p])[0] == p@);
    assert(model(list)[i] == list[i]@);
}

// ---------------------------------------------------------------------------------------
// Imports
// ---------------------------------------------------------------------------------------
/// The first algorithm of a list, wherever it stands, decides the encoding of an import: raw
/// bytes for AES, HMAC and Triple-DES, PKCS#8 for RSA, EC and ML-DSA. Anything else under that
/// tag is refused, and so is a list without it.
pub proof fn law_first_algorithm_decides_the_encoding(ps: Seq<Param>, i: int)
    ensures
        decides(ps, i, Tag::Algorithm) ==> {
            let v = ps[i].value;
            let symmetric = v == ParamValue::Algorithm(Algorithm::Aes) || v
                == ParamValue::Algorithm(Algorithm::Hmac) || v == ParamValue::Algorithm(
                Algorithm::TripleDes,
            );
            &&& symmetric ==> import_format_of(ps) == Ok::<KeyFormat, Error>(KeyFormat::Raw)
            &&& has_public_key(v) ==> import_format_of(ps) == Ok::<KeyFormat, Error>(
                KeyFormat::Pkcs8,
            )
            &&& !symmetric && !has_public_key(v) ==> import_format_of(ps) == Err::<
                KeyFormat,
                Error,
            >(Error::Km(ErrorCode::InvalidArgument))
        },
        lacks(ps, Tag::Algorithm) ==> import_format_of(ps) == Err::<KeyFormat, Error>(
            Error::Km(ErrorCode::InvalidArgument),
        ),
{
    if decides(ps, i, Tag::Algorithm) {
        lemma_decides(ps, i, Tag::Algorithm);
    }
    if lacks(ps, Tag::Algorithm) {
        lemma_lacks(ps, Tag::Algorithm);
    }
}

/// Parameters with other tags, put before a list or after it, do not change its encoding.
pub proof fn law_other_parameters_do_not_change_the_encoding(
    before: Seq<Param>,
    ps: Seq<Param>,
    after: Seq<Param>,
)
    requires
        lacks(before, Tag::Algorithm),
        lacks(after, Tag::Algorithm),
    ensures
        import_format_of(before + ps + after) == import_format_of(ps),
{
    let all = before + ps + after;
    lemma_first_value(ps, Tag::Algorithm);
    if has_tag(ps, Tag::Algorithm) {
        let i = choose|i: int| is_first(ps, Tag::Algorithm, i);
        let k = before.len() + i;
        assert(all[k] == ps[i]);
        assert forall|j: int| 0 <= j < k implies (#[trigger] all[j]).tag != Tag::Algorithm by {
            if j < before.len() {
                assert(all[j] == before[j]);
            } else {
                assert(all[j] == ps[j - before.len()]);
            }
        }
        lemma_decides(all, k, Tag::Algorithm);
    } else {
        assert forall|j: int| 0 <= j < all.len() implies (#[trigger] all[j]).tag
            != Tag::Algorithm by {
            if j < before.len() {
                assert(all[j] == before[j]);
            } else if j < before.len() + ps.len() {
                assert(all[j] == ps[j - before.len()]);
            } else {
                assert(all[j] == after[j - before.len() - ps.len()]);
            }
        }
        lemma_lacks(all, Tag::Algorithm);
    }
}

// ---------------------------------------------------------------------------------------
// Operations
// ---------------------------------------------------------------------------------------
/// The first purpose of a list, wherever it stands, is that of the operation. Anything else under
/// that tag is refused, and so is a list without it.
pub proof fn law_first_purpose_decides(ps: Seq<Param>, i: int)
    ensures
        decides(ps, i, Tag::Purpose) ==> purpose_of(ps) == match ps[i].value {
            ParamValue::KeyPurpose(purpose) => Ok::<KeyPurpose, Error>(purpose),
            _ => Err(Error::Km(ErrorCode::InvalidArgument)),
        },
        lacks(ps, Tag::Purpose) ==> purpose_of(ps) == Err::<KeyPurpose, Error>(
            Error::Km(ErrorCode::InvalidArgument),
        ),
{
    if decides(ps, i, Tag::Purpose) {
        lemma_decides(ps, i, Tag::Purpose);
    }
    if lacks(ps, Tag::Purpose) {
        lemma_lacks(ps, Tag::Purpose);
    }
}

/// A tag is taken out of each part of a list by itself, and of a single parameter by its tag
/// alone; so every other parameter stays, as often as it was there and in its order.
pub proof fn law_a_tag_is_taken_out_everywhere(
    ps: Seq<Param>,
    more: Seq<Param>,
    p: Param,
    tag: Tag,
)
    ensures
        without_tag(ps + more, tag) == without_tag(ps, tag) + without_tag(more, tag),
        p.tag == tag ==> without_tag(seq![p], tag) == Seq::<Param>::empty(),
        p.tag != tag ==> without_tag(seq![p], tag) == seq![p],
        without_tag(Seq::<Param>::empty(), tag) == Seq::<Param>::empty(),
{
    let keep = |p: Param| p.tag != tag;
    Seq::filter_distributes_over_add(ps, more, keep);
    reveal(Seq::filter);
    assert(seq![p].drop_last() =~= Seq::<Param>::empty());
    assert(Seq::<Param>::empty().filter(keep) =~= Seq::<Param>::empty());
    assert(seq![p].filter(keep) =~= if keep(p) {
        seq![p]
    } else {
        Seq::<Param>::empty()
    });
}

/// With the IMEIs exchanged, every parameter stands where it stood and has the value that it had;
/// the first IMEI is asked for as the second and the second as the first, and every other tag is
/// as it was.
pub proof fn law_only_the_imeis_are_exchanged(ps: Seq<Param>, i: int)
    requires
        0 <= i < ps.len(),
    ensures
        swapped_imeis(ps).len() == ps.len(),
        swapped_imeis(ps)[i].value == ps[i].value,
        ps[i].tag == Tag::AttestationIdImei ==> swapped_imeis(ps)[i].tag
            == Tag::AttestationIdSecondImei,
        ps[i].tag == Tag::AttestationIdSecondImei ==> swapped_imeis(ps)[i].tag
            == Tag::AttestationIdImei,
        ps[i].tag != Tag::AttestationIdImei && ps[i].tag != Tag::AttestationIdSecondImei
            ==> swapped_imeis(ps)[i].tag == ps[i].tag,
{
}

// ---------------------------------------------------------------------------------------
// Authenticators
// ---------------------------------------------------------------------------------------
/// The secure id for a kind of authenticator is that of the first one of the kind, whatever else is
/// in the list; without one it is -1.
pub proof fn law_first_authenticator_of_a_kind_decides(
    specs: Seq<AuthenticatorSpec>,
    kind: AuthenticatorType,
)
    ensures
        is_secure_id(specs, kind, secure_id(specs, kind)),
{
    if exists|i: int| 0 <= i < specs.len() && (#[trigger] specs[i]).authenticator_type == kind {
        let i = choose|i: int|
            0 <= i < specs.len() && (#[trigger] specs[i]).authenticator_type == kind;
        lemma_first_of_kind(specs, kind, i);
        let k = choose|k: int| is_first_of_kind(specs, kind, k);
        assert(specs[k].authenticator_type == kind);
    } else if exists|k: int| is_first_of_kind(specs, kind, k) {
        let k = choose|k: int| is_first_of_kind(specs, kind, k);
        assert(specs[k].authenticator_type == kind);
    }
}

/// The id is that of the first authenticator of this kind, or -1 where there is none.
pub open spec fn is_secure_id(
    specs: Seq<AuthenticatorSpec>,
    kind: AuthenticatorType,
    id: i64,
) -> bool {
    if forall|i: int|
        0 <= i < specs.len() ==> (#[trigger] specs[i]).authenticator_type != kind {
        id == -1
    } else {
        exists|i: int|
            {
                &&& 0 <= i < specs.len()
                &&& (#[trigger] specs[i]).authenticator_type == kind
                &&& specs[i].authenticator_id == id
                &&& forall|j: int|
                    0 <= j < i ==> (#[trigger] specs[j]).authenticator_type != kind
            }
    }
}

proof fn lemma_first_of_kind(specs: Seq<AuthenticatorSpec>, kind: AuthenticatorType, i: int)
    requires
        0 <= i < specs.len(),
        specs[i].authenticator_type == kind,
    ensures
        exists|k: int| is_first_of_kind(specs, kind, k),
    decreases i,
{
    if !is_first_of_kind(specs, kind, i) {
        let j = choose|j: int|
            0 <= j < i && (#[trigger] specs[j]).authenticator_type == kind;
        lemma_first_of_kind(specs, kind, j);
    }
}

// ---------------------------------------------------------------------------------------
// Defaults
// ---------------------------------------------------------------------------------------
/// The default subject of a certificate is the DER encoding of a name with one part, the common
/// name "Android Keystore Key": each length in it is that of what follows.
pub proof fn law_default_subject_is_a_name()
    ensures
        ({
            let der = default_cert_subject();
            &&& der.len() == 33
            &&& der[0] == 0x30 && der[1] == der.len() - 2
            &&& der[2] == 0x31 && der[3] == der.len() - 4
            &&& der[4] == 0x30 && der[5] == der.len() - 6
            &&& der[6] == 0x06 && der[7] == 3
            &&& der[8] == 0x55 && der[9] == 0x04 && der[10] == 0x03
            &&& der[11] == 0x0c && der[12] == der.len() - 13
            &&& der.len() - 13 == "Android Keystore Key"@.len()
            &&& forall|i: int|
                0 <= i < "Android Keystore Key"@.len() ==> #[trigger] der[13 + i] as char
                    == "Android Keystore Key"@[i]
        }),
{
    reveal_strlit("Android Keystore Key");
    let der = default_cert_subject();
    assert forall|i: int| 0 <= i < "Android Keystore Key"@.len() implies #[trigger] der[13
        + i] as char == "Android Keystore Key"@[i] by {
        lemma_subject_text(i);
    }
}

proof fn lemma_subject_text(i: int)
    requires
        0 <= i < 20,
    ensures
        default_cert_subject()[13 + i] as char == "Android Keystore Key"@[i],
{
    reveal_strlit("Android Keystore Key");
}

/// Where the first algorithm of a list has a public key, the list with its defaults has a subject
/// and the bounds of the validity of a certificate: as the caller gave them, or else the default
/// subject, the epoch and the end of time. A list with an RSA algorithm has a public exponent: as
/// the caller gave it, or else 65537. No other parameter of the caller matters to these.
pub proof fn law_public_keys_get_their_defaults(ps: Seq<Param>, i: int, end_of_time: i64)
    requires
        decides(ps, i, Tag::Algorithm),
        has_public_key(ps[i].value),
    ensures
        ({
            let more = asymmetric_defaults(ps, end_of_time);
            let subject = ParamValue::Blob(default_cert_subject());
            let start = ParamValue::DateTime(0);
            let end = ParamValue::DateTime(end_of_time);
            let exponent = ParamValue::LongInteger(65537);
            let rsa = ParamValue::Algorithm(Algorithm::Rsa);
            &&& lacks(ps, Tag::CertificateSubject) <==> holds(
                more,
                Tag::CertificateSubject,
                subject,
            )
            &&& lacks(ps, Tag::CertificateNotBefore) <==> holds(
                more,
                Tag::CertificateNotBefore,
                start,
            )
            &&& lacks(ps, Tag::CertificateNotAfter) <==> holds(more, Tag::CertificateNotAfter, end)
            &&& lacks(ps, Tag::RsaPublicExponent) && holds(ps, Tag::Algorithm, rsa) <==> holds(
                more,
                Tag::RsaPublicExponent,
                exponent,
            )
        }),
{
    lemma_decides(ps, i, Tag::Algorithm);
    let more = asymmetric_defaults(ps, end_of_time);
    law_tags_are_found_wherever_they_stand(ps, Tag::CertificateSubject, seq![], Algorithm::Rsa);
    law_tags_are_found_wherever_they_stand(ps, Tag::CertificateNotBefore, seq![], Algorithm::Rsa);
    law_tags_are_found_wherever_they_stand(ps, Tag::CertificateNotAfter, seq![], Algorithm::Rsa);
    law_tags_are_found_wherever_they_stand(ps, Tag::RsaPublicExponent, seq![], Algorithm::Rsa);
    let a: int = if has_tag(ps, Tag::CertificateSubject) { 0 } else { 1 };
    let b: int = if has_tag(ps, Tag::CertificateNotBefore) { 0 } else { 1 };
    let c: int = if has_tag(ps, Tag::CertificateNotAfter) { 0 } else { 1 };
    if !has_tag(ps, Tag::CertificateSubject) {
        assert(more[0].tag == Tag::CertificateSubject);
    }
    if !has_tag(ps, Tag::CertificateNotBefore) {
        assert(more[a].tag == Tag::CertificateNotBefore);
    }
    if !has_tag(ps, Tag::CertificateNotAfter) {
        assert(more[a + b].tag == Tag::CertificateNotAfter);
    }
    if !has_tag(ps, Tag::RsaPublicExponent) && has_algorithm(ps, Algorithm::Rsa) {
        assert(more[a + b + c].tag == Tag::RsaPublicExponent);
    }
}

/// The key size that goes with a curve.
pub open spec fn is_size_of(curve: EcCurve, size: i32) -> bool {
    ||| curve == EcCurve::P224 && size == 224
    ||| curve == EcCurve::P256 && size == 256
    ||| curve == EcCurve::Curve25519 && size == 256
    ||| curve == EcCurve::P384 && size == 384
    ||| curve == EcCurve::P521 && size == 521
}

/// The parameter at `i` is the first that names a curve.
pub open spec fn is_curve_at(ps: Seq<Param>, i: int, curve: EcCurve) -> bool {
    &&& 0 <= i < ps.len()
    &&& ps[i] == (Param { tag: Tag::EcCurve, value: ParamValue::EcCurve(curve) })
    &&& forall|j: int|
        0 <= j < i ==> !((#[trigger] ps[j]).tag == Tag::EcCurve && ps[j].value is EcCurve)
}

/// The first curve that a list names decides the size of its key, where it is one of the known
/// ones; a list that names none has no such size.
pub proof fn law_first_curve_decides_the_size(ps: Seq<Param>, i: int, curve: EcCurve)
    ensures
        is_curve_at(ps, i, curve) ==> match ec_key_size(ps) {
            Some(size) => is_size_of(curve, size),
            None => forall|size: i32| !is_size_of(curve, size),
        },
        (forall|j: int|
            0 <= j < ps.len() ==> !((#[trigger] ps[j]).tag == Tag::EcCurve && ps[j].value
                is EcCurve)) ==> ec_key_size(ps) is None,
{
    if is_curve_at(ps, i, curve) {
        assert(is_first_curve(ps, i));
        lemma_first_curve(ps, i);
    }
    if ec_key_size(ps) is Some {
        let k = choose|k: int| is_first_curve(ps, k);
        assert(names_curve(ps[k]));
    }
}

/// A key with an EC algorithm and a known curve, whose size the caller did not give, gets the size
/// of its curve; and no other list gets a size.
pub proof fn law_ec_keys_get_their_size(ps: Seq<Param>, end_of_time: i64, size: i32)
    ensures
        holds(
            asymmetric_defaults(ps, end_of_time),
            Tag::KeySize,
            ParamValue::Integer(size),
        ) <==> {
            &&& exists|i: int| decides(ps, i, Tag::Algorithm) && has_public_key(ps[i].value)
            &&& holds(ps, Tag::Algorithm, ParamValue::Algorithm(Algorithm::Ec))
            &&& lacks(ps, Tag::KeySize)
            &&& ec_key_size(ps) == Some(size)
        },
{
    let more = asymmetric_defaults(ps, end_of_time);
    law_tags_are_found_wherever_they_stand(ps, Tag::KeySize, seq![], Algorithm::Ec);
    lemma_asymmetric(ps);
    if more.len() > 0 && ec_key_size(ps) is Some && lacks(ps, Tag::KeySize) && holds(
        ps,
        Tag::Algorithm,
        ParamValue::Algorithm(Algorithm::Ec),
    ) {
        assert(more[more.len() - 1].tag == Tag::KeySize);
    }
    if exists|i: int| decides(ps, i, Tag::Algorithm) && has_public_key(ps[i].value) {
        if ec_key_size(ps) is Some && lacks(ps, Tag::KeySize) && has_algorithm(
            ps,
            Algorithm::Ec,
        ) {
            assert(more.last() == (Param {
                tag: Tag::KeySize,
                value: ParamValue::Integer(ec_key_size(ps)->0),
            }));
            assert(more[more.len() - 1] == more.last());
        }
    }
}

proof fn lemma_asymmetric(ps: Seq<Param>)
    ensures
        is_asymmetric(ps) <==> exists|i: int|
            decides(ps, i, Tag::Algorithm) && has_public_key(ps[i].value),
{
    lemma_first_value(ps, Tag::Algorithm);
    if is_asymmetric(ps) {
        let i = choose|i: int| is_first(ps, Tag::Algorithm, i);
        assert(is_first(ps, Tag::Algorithm, i));
        assert(decides(ps, i, Tag::Algorithm));
    }
    if exists|i: int| decides(ps, i, Tag::Algorithm) && has_public_key(ps[i].value) {
        let i = choose|i: int| decides(ps, i, Tag::Algorithm) && has_public_key(ps[i].value);
        lemma_decides(ps, i, Tag::Algorithm);
    }
}

/// There are no defaults but these five, each for a tag that the caller did not give, each once
/// and in this order; and there are none for a list whose first algorithm has no public key.
pub proof fn law_there_are_no_other_defaults(ps: Seq<Param>, end_of_time: i64, k: int)
    requires
        0 <= k < asymmetric_defaults(ps, end_of_time).len(),
    ensures
        ({
            let more = asymmetric_defaults(ps, end_of_time);
            let rank = default_rank(more[k].tag);
            &&& exists|i: int| decides(ps, i, Tag::Algorithm) && has_public_key(ps[i].value)
            &&& lacks(ps, more[k].tag)
            &&& 1 <= rank <= 5
            &&& k + 1 < more.len() ==> rank < default_rank(more[k + 1].tag)
            &&& rank == 1 ==> more[k].value == ParamValue::Blob(default_cert_subject())
            &&& rank == 2 ==> more[k].value == ParamValue::DateTime(0)
            &&& rank == 3 ==> more[k].value == ParamValue::DateTime(end_of_time)
            &&& rank == 4 ==> more[k].value == ParamValue::LongInteger(65537)
            &&& rank == 5 ==> more[k].value is Integer
        }),
{
    lemma_asymmetric(ps);
    law_tags_are_found_wherever_they_stand(ps, Tag::CertificateSubject, seq![], Algorithm::Rsa);
    law_tags_are_found_wherever_they_stand(ps, Tag::CertificateNotBefore, seq![], Algorithm::Rsa);
    law_tags_are_found_wherever_they_stand(ps, Tag::CertificateNotAfter, seq![], Algorithm::Rsa);
    law_tags_are_found_wherever_they_stand(ps, Tag::RsaPublicExponent, seq![], Algorithm::Rsa);
    law_tags_are_found_wherever_they_stand(ps, Tag::KeySize, seq![], Algorithm::Rsa);
}

/// The place of a default among the others.
pub open spec fn default_rank(tag: Tag) -> int {
    if tag == Tag::CertificateSubject {
        1
    } else if tag == Tag::CertificateNotBefore {
        2
    } else if tag == Tag::CertificateNotAfter {
        3
    } else if tag == Tag::RsaPublicExponent {
        4
    } else if tag == Tag::KeySize {
        5
    } else {
        0
    }
}

} // verus!
