//! The certificates of a new key.

use vstd::prelude::*;
use crate::types::{Certificate, CertificateInfo};

verus! {

/// The encodings of these certificates, one after the other.
pub open spec fn concatenated(certs: Seq<Certificate>) -> Seq<u8>
    decreases certs.len(),
{
    if certs.len() == 0 {
        seq![]
    } else {
        concatenated(certs.drop_last()) + certs.last().encoded_certificate@
    }
}

/// The certificates are stored as this chain asks: its first entry is the leaf, and the
/// entries after it, if there are any, are joined in one piece.
pub open spec fn stores_chain(info: CertificateInfo, chain: Seq<Certificate>) -> bool {
    &&& match info.cert {
        Some(leaf) => chain.len() > 0 && leaf == chain[0].encoded_certificate,
        None => chain.len() == 0,
    }
    &&& match info.cert_chain {
        Some(rest) => chain.len() > 1 && rest@ == concatenated(chain.skip(1)),
        None => chain.len() <= 1,
    }
}

/// Splits the certificate chain of a new key into the leaf and the rest in one piece.
///
/// The rest comes either as one entry for each certificate, or as a single entry that holds
/// all of them; both are stored alike.
pub fn unify_certificate_chain(chain: Vec<Certificate>) -> (r: CertificateInfo)
    ensures
        stores_chain(r, chain@),
{
    let mut chain = chain;
    let ghost all = chain@;
    if chain.len() == 0 {
        return CertificateInfo { cert: None, cert_chain: None };
    }
    let leaf = chain.remove(0).encoded_certificate;
    assert(chain@ =~= all.skip(1));
    if chain.len() == 0 {
        return CertificateInfo { cert: Some(leaf), cert_chain: None };
    }
    let mut rest: Vec<u8> = Vec::new();
    let mut i: usize = 0;
    assert(chain@.take(0) =~= seq![]);
    while i < chain.len()
        invariant
            i <= chain@.len(),
            rest@ == concatenated(chain@.take(i as int)),
        decreases chain@.len() - i,
    {
        let ghost before = rest@;
        rest.extend_from_slice(chain[i].encoded_certificate.as_slice());
        proof {
            assert(chain@.take(i + 1).drop_last() =~= chain@.take(i as int));
            assert(rest@ =~= before + chain@[i as int].encoded_certificate@);
        }
        i += 1;
    }
    assert(chain@.take(i as int) =~= chain@);
    CertificateInfo { cert: Some(leaf), cert_chain: Some(rest) }
}

/// The leaf of a chain is its first entry, and the rest is what the later entries hold, byte for
/// byte and one after the other: nothing for no entries, and each entry after all those before it.
/// There is a leaf exactly where there is an entry, and a rest exactly where there are two.
pub proof fn law_leaf_and_rest(
    info: CertificateInfo,
    chain: Seq<Certificate>,
    some: Seq<Certificate>,
    one: Certificate,
)
    ensures
        concatenated(Seq::<Certificate>::empty()) == Seq::<u8>::empty(),
        concatenated(some.push(one)) == concatenated(some) + one.encoded_certificate@,
        stores_chain(info, chain) ==> {
            &&& info.cert is Some <==> chain.len() >= 1
            &&& info.cert_chain is Some <==> chain.len() >= 2
            &&& chain.len() >= 1 ==> info.cert == Some(chain[0].encoded_certificate)
            &&& chain.len() >= 2 ==> info.cert_chain->0@ == concatenated(
                chain.subrange(1, chain.len() as int),
            )
        },
{
    assert(some.push(one).drop_last() =~= some);
    assert(concatenated(some.push(one)) =~= concatenated(some) + one.encoded_certificate@);
    if chain.len() >= 2 {
        assert(chain.skip(1) =~= chain.subrange(1, chain.len() as int));
    }
}

/// A chain whose rest comes as one entry for each certificate is stored just as the chain in
/// which a single entry holds all of them.
pub proof fn law_joined_rest_is_stored_alike(
    one_each: Seq<Certificate>,
    joined: Seq<Certificate>,
    a: CertificateInfo,
    b: CertificateInfo,
)
    requires
        one_each.len() > 1,
        joined.len() == 2,
        joined[0] == one_each[0],
        joined[1].encoded_certificate@ == concatenated(one_each.skip(1)),
        stores_chain(a, one_each),
        stores_chain(b, joined),
    ensures
        a.cert == b.cert,
        a.cert_chain is Some,
        b.cert_chain is Some,
        a.cert_chain->0@ == b.cert_chain->0@,
{
    let tail = joined.skip(1);
    assert(tail.drop_last() =~= seq![]);
    reveal_with_fuel(concatenated, 2);
    assert(concatenated(tail) =~= joined[1].encoded_certificate@);
}

/// The certificates of a provisioned attestation key, added as one entry to the chain of a new
/// key, are stored at the end of the rest.
pub proof fn law_added_entry_ends_the_rest(
    chain: Seq<Certificate>,
    added: Certificate,
    info: CertificateInfo,
)
    requires
        chain.len() > 0,
        stores_chain(info, chain.push(added)),
    ensures
        info.cert == Some(chain[0].encoded_certificate),
        info.cert_chain is Some,
        info.cert_chain->0@ == concatenated(chain.skip(1)) + added.encoded_certificate@,
{
    let rest = chain.push(added).skip(1);
    assert(rest.drop_last() =~= chain.skip(1));
    assert(rest.last() == added);
}

} // verus!
