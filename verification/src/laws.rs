use vstd::prelude::*;
use crate::certificate::CertificateView;
use crate::state::{held_by, ids, issued_by, position, unrevoked, ContractState};

verus! {

/// The certificates of `next` are those of `prev`, in the same places, with the
/// same contents except that a valid certificate may have become revoked, and
/// possibly followed by new certificates.
pub open spec fn keeps_history(prev: ContractState, next: ContractState) -> bool {
    &&& prev.certs.len() <= next.certs.len()
    &&& forall|i: int|
        0 <= i < prev.certs.len() ==> #[trigger] next.certs[i] == prev.certs[i] || next.certs[i]
            == (CertificateView { is_valid: false, ..prev.certs[i] })
}

/// Lemma: a lookup finds the first certificate with the identifier.
pub proof fn lemma_position(certs: Seq<CertificateView>, id: u64)
    ensures
        match position(certs, id) {
            Some(i) => 0 <= i < certs.len() && certs[i].id == id && forall|j: int|
                0 <= j < i ==> #[trigger] certs[j].id != id,
            None => forall|j: int| 0 <= j < certs.len() ==> #[trigger] certs[j].id != id,
        },
{
    let s = ids(certs);
    s.index_of_first_ensures(id);
    match position(certs, id) {
        Some(i) => {
            assert forall|j: int| 0 <= j < i implies #[trigger] certs[j].id != id by {
                assert(s[j] == certs[j].id);
            }
        },
        None => {
            assert forall|j: int| 0 <= j < certs.len() implies #[trigger] certs[j].id != id by {
                assert(s[j] == certs[j].id);
            }
        },
    }
}

/// An issuer that has been added is registered, and so is every issuer that was
/// registered before.
pub proof fn law_add_issuer_registers(s: ContractState, issuer: Seq<char>, other: Seq<char>)
    ensures
        s.with_issuer(issuer).is_issuer(issuer),
        s.with_issuer(issuer).is_issuer(other) == (s.is_issuer(other) || other == issuer),
{
    let t = s.with_issuer(issuer);
    assert(t.issuers[t.issuers.len() - 1] == issuer);
    if s.is_issuer(other) {
        let k = choose|k: int| 0 <= k < s.issuers.len() && s.issuers[k] == other;
        assert(t.issuers[k] == other);
    }
    if t.is_issuer(other) && other != issuer {
        let k = choose|k: int| 0 <= k < t.issuers.len() && t.issuers[k] == other;
        assert(s.issuers[k] == other);
    }
}

/// Adding an issuer that is not registered keeps the registered issuers free of
/// duplicates.
pub proof fn law_add_issuer_keeps_issuers_distinct(s: ContractState, issuer: Seq<char>)
    requires
        s.issuers.no_duplicates(),
        !s.is_issuer(issuer),
    ensures
        s.with_issuer(issuer).issuers.no_duplicates(),
{
    let t = s.with_issuer(issuer).issuers;
    assert forall|i: int, j: int|
        0 <= i < t.len() && 0 <= j < t.len() && i != j implies t[i] != t[j] by {
        if i == t.len() - 1 {
            assert(s.issuers[j] == t[j]);
        } else if j == t.len() - 1 {
            assert(s.issuers[i] == t[i]);
        }
    }
}

/// Once removed, an issuer is no longer registered (the registered issuers being
/// free of duplicates), and the registrations of other issuers stand.
pub proof fn law_remove_issuer_unregisters(s: ContractState, issuer: Seq<char>, other: Seq<char>)
    requires
        s.issuers.no_duplicates(),
    ensures
        !s.without_issuer(issuer).is_issuer(issuer),
        other != issuer ==> s.without_issuer(issuer).is_issuer(other) == s.is_issuer(other),
        s.without_issuer(issuer).issuers.no_duplicates(),
{
    let t = s.without_issuer(issuer).issuers;
    s.issuers.index_of_first_ensures(issuer);
    match s.issuers.index_of_first(issuer) {
        None => {},
        Some(k) => {
            s.issuers.remove_ensures(k);
            if t.contains(issuer) {
                let j = choose|j: int| 0 <= j < t.len() && t[j] == issuer;
                if j < k {
                    assert(s.issuers[j] == issuer);
                } else {
                    assert(s.issuers[j + 1] == issuer);
                }
            }
            if other != issuer {
                if s.is_issuer(other) {
                    let j = choose|j: int| 0 <= j < s.issuers.len() && s.issuers[j] == other;
                    if j < k {
                        assert(t[j] == other);
                    } else {
                        assert(j != k);
                        assert(t[j - 1] == other);
                    }
                }
                if t.contains(other) {
                    let j = choose|j: int| 0 <= j < t.len() && t[j] == other;
                    if j < k {
                        assert(s.issuers[j] == other);
                    } else {
                        assert(s.issuers[j + 1] == other);
                    }
                }
            }
            assert forall|i: int, j: int|
                0 <= i < t.len() && 0 <= j < t.len() && i != j implies t[i] != t[j] by {
                let i2 = if i < k { i } else { i + 1 };
                let j2 = if j < k { j } else { j + 1 };
                assert(t[i] == s.issuers[i2]);
                assert(t[j] == s.issuers[j2]);
            }
        },
    }
}

/// A certificate issued under an identifier that no earlier certificate has is
/// what a lookup by that identifier gives back; lookups by other identifiers are
/// unchanged.
pub proof fn law_issued_certificate_is_found(s: ContractState, cert: CertificateView, id: u64)
    requires
        s.certificate(cert.id) is None,
    ensures
        s.with_certificate(cert).certificate(cert.id) == Some(cert),
        id != cert.id ==> s.with_certificate(cert).certificate(id) == s.certificate(id),
{
    let t = s.with_certificate(cert);
    lemma_position(s.certs, cert.id);
    lemma_position(t.certs, cert.id);
    lemma_position(s.certs, id);
    lemma_position(t.certs, id);
    let n = s.certs.len() as int;
    assert(t.certs[n] == cert);
    match position(t.certs, cert.id) {
        Some(i) => {
            if i < n {
                assert(s.certs[i] == t.certs[i]);
            }
        },
        None => {},
    }
    if id != cert.id {
        match position(s.certs, id) {
            Some(i) => {
                assert(t.certs[i] == s.certs[i]);
                match position(t.certs, id) {
                    Some(j) => {
                        if j < i {
                            assert(s.certs[j] == t.certs[j]);
                        }
                    },
                    None => {},
                }
            },
            None => {
                match position(t.certs, id) {
                    Some(j) => {
                        assert(j != n);
                        assert(s.certs[j] == t.certs[j]);
                    },
                    None => {},
                }
            },
        }
    }
}

/// Issuing a certificate never changes what a lookup by an identifier that is
/// already taken finds.
pub proof fn law_issue_keeps_earlier_lookups(s: ContractState, cert: CertificateView, id: u64)
    requires
        s.certificate(id) is Some,
    ensures
        s.with_certificate(cert).certificate(id) == s.certificate(id),
{
    let t = s.with_certificate(cert);
    lemma_position(s.certs, id);
    lemma_position(t.certs, id);
    let i = position(s.certs, id).unwrap();
    assert(t.certs[i] == s.certs[i]);
    match position(t.certs, id) {
        Some(j) => {
            if j < i {
                assert(s.certs[j] == t.certs[j]);
            }
        },
        None => {},
    }
}

/// After a revocation, a lookup by the identifier finds the same certificate,
/// now marked revoked.
pub proof fn law_revoked_certificate_is_found_revoked(s: ContractState, id: u64)
    requires
        position(s.certs, id) is Some,
    ensures
        ({
            let i = position(s.certs, id).unwrap();
            s.with_revoked(i).certificate(id) == Some(
                CertificateView { is_valid: false, ..s.certs[i] },
            )
        }),
{
    let i = position(s.certs, id).unwrap();
    let t = s.with_revoked(i);
    lemma_position(s.certs, id);
    lemma_position(t.certs, id);
    match position(t.certs, id) {
        Some(j) => {
            if j < i {
                assert(s.certs[j] == t.certs[j]);
            }
            if j > i {
                assert(t.certs[i].id == id);
            }
        },
        None => {
            assert(t.certs[i].id == id);
        },
    }
}

/// Every change of the stored state keeps the history of certificates: none is
/// ever removed or altered, except that a valid one may become revoked. Hence a
/// revoked certificate stays revoked. No change other than the first
/// initialization touches the administrator.
pub proof fn law_changes_keep_history(
    s: ContractState,
    issuer: Seq<char>,
    cert: CertificateView,
    i: int,
)
    requires
        0 <= i < s.certs.len(),
    ensures
        keeps_history(s, s.with_issuer(issuer)),
        keeps_history(s, s.without_issuer(issuer)),
        keeps_history(s, s.with_certificate(cert)),
        keeps_history(s, s.with_revoked(i)),
        s.with_issuer(issuer).admin == s.admin,
        s.without_issuer(issuer).admin == s.admin,
        s.with_certificate(cert).admin == s.admin,
        s.with_revoked(i).admin == s.admin,
{
    let t = s.with_certificate(cert);
    assert forall|j: int| 0 <= j < s.certs.len() implies #[trigger] t.certs[j] == s.certs[j] by {}
    let u = s.with_revoked(i);
    assert forall|j: int|
        0 <= j < s.certs.len() implies #[trigger] u.certs[j] == s.certs[j] || u.certs[j] == (
        CertificateView { is_valid: false, ..s.certs[j] }) by {}
}

/// A recipient who has just been issued a certificate holds a valid certificate
/// with its title; and revoking a certificate never makes anyone hold a valid
/// certificate that they did not hold before.
pub proof fn law_valid_holdings(
    s: ContractState,
    cert: CertificateView,
    i: int,
    owner: Seq<char>,
    title: Seq<char>,
)
    requires
        cert.is_valid,
        0 <= i < s.certs.len(),
    ensures
        s.with_certificate(cert).holds_valid(cert.recipient, cert.title),
        s.with_revoked(i).holds_valid(owner, title) ==> s.holds_valid(owner, title),
{
    let t = s.with_certificate(cert);
    assert(t.certs[s.certs.len() as int] == cert);
    let u = s.with_revoked(i);
    if u.holds_valid(owner, title) {
        let k = choose|k: int|
            0 <= k < u.certs.len() && #[trigger] u.certs[k].recipient == owner && u.certs[k].title
                == title && u.certs[k].is_valid;
        assert(k != i);
        assert(s.certs[k] == u.certs[k]);
    }
}

/// The summary of a portfolio counts exactly its certificates and its valid
/// ones; no more are valid than held, and whoever holds a valid certificate of
/// any title has a positive count of valid certificates.
pub proof fn law_portfolio_summary(s: ContractState, owner: Seq<char>, title: Seq<char>)
    ensures
        s.portfolio(owner).filter(unrevoked()).len() <= s.portfolio(owner).len(),
        s.portfolio(owner).len() <= s.certs.len(),
        s.holds_valid(owner, title) ==> s.portfolio(owner).filter(unrevoked()).len() > 0,
        forall|c: CertificateView|
            s.portfolio(owner).contains(c) <==> (s.certs.contains(c) && c.recipient == owner),
{
    let p = s.portfolio(owner);
    p.lemma_filter_len(unrevoked());
    s.certs.lemma_filter_len(held_by(owner));
    if s.holds_valid(owner, title) {
        let k = choose|k: int|
            0 <= k < s.certs.len() && #[trigger] s.certs[k].recipient == owner && s.certs[k].title
                == title && s.certs[k].is_valid;
        s.certs.lemma_filter_contains(held_by(owner), k);
        let j = choose|j: int| 0 <= j < p.len() && p[j] == s.certs[k];
        p.lemma_filter_contains(unrevoked(), j);
    }
    assert forall|c: CertificateView|
        p.contains(c) <==> (s.certs.contains(c) && c.recipient == owner) by {
        if p.contains(c) {
            s.certs.lemma_filter_contains_rev(held_by(owner), c);
            let j = choose|j: int| 0 <= j < p.len() && p[j] == c;
            s.certs.lemma_filter_pred(held_by(owner), j);
        }
        if s.certs.contains(c) && c.recipient == owner {
            let k = choose|k: int| 0 <= k < s.certs.len() && s.certs[k] == c;
            s.certs.lemma_filter_contains(held_by(owner), k);
        }
    }
}

/// Lemma: replacing the element at `i` by `v` changes the number of elements that
/// `p` keeps by what `p` says of the old and the new element.
pub proof fn lemma_filter_update_len<A>(s: Seq<A>, i: int, v: A, p: spec_fn(A) -> bool)
    requires
        0 <= i < s.len(),
    ensures
        s.update(i, v).filter(p).len() + (if p(s[i]) { 1int } else { 0int }) == s.filter(p).len()
            + (if p(v) { 1int } else { 0int }),
    decreases s.len(),
{
    let t = s.update(i, v);
    let sl = s.drop_last();
    let tl = t.drop_last();
    assert(s =~= sl.push(s.last()));
    assert(t =~= tl.push(t.last()));
    sl.lemma_filter_push(s.last(), p);
    tl.lemma_filter_push(t.last(), p);
    if i == s.len() - 1 {
        assert(tl =~= sl);
    } else {
        assert(tl =~= sl.update(i, v));
        lemma_filter_update_len(sl, i, v, p);
    }
}

/// Lemma: filtering by `p` and then by `q` keeps what filtering once by both keeps.
pub proof fn lemma_filter_filter<A>(s: Seq<A>, p: spec_fn(A) -> bool, q: spec_fn(A) -> bool)
    ensures
        s.filter(p).filter(q) == s.filter(|x: A| p(x) && q(x)),
    decreases s.len(),
{
    let pq = |x: A| p(x) && q(x);
    if s.len() == 0 {
        reveal(Seq::filter);
        assert(s.filter(p) =~= s);
        assert(s.filter(pq) =~= s);
        assert(s.filter(p).filter(q) =~= s);
    } else {
        let sl = s.drop_last();
        let x = s.last();
        assert(s =~= sl.push(x));
        lemma_filter_filter(sl, p, q);
        sl.lemma_filter_push(x, p);
        sl.lemma_filter_push(x, pq);
        if p(x) {
            sl.filter(p).lemma_filter_push(x, q);
        }
    }
}

/// A revocation changes exactly one certificate, the one at the index that the
/// lookup found: that one is marked revoked and keeps every other field; every
/// other certificate, the administrator and the issuers are unchanged; every
/// identifier is found at the same index as before, and a lookup of any
/// identifier found elsewhere gives the same certificate as before.
pub proof fn law_revocation_touches_one_certificate(s: ContractState, i: int, id: u64)
    requires
        0 <= i < s.certs.len(),
    ensures
        s.with_revoked(i).admin == s.admin,
        s.with_revoked(i).issuers == s.issuers,
        s.with_revoked(i).certs.len() == s.certs.len(),
        s.with_revoked(i).certs[i] == (CertificateView { is_valid: false, ..s.certs[i] }),
        forall|j: int|
            0 <= j < s.certs.len() && j != i ==> #[trigger] s.with_revoked(i).certs[j]
                == s.certs[j],
        position(s.with_revoked(i).certs, id) == position(s.certs, id),
        position(s.certs, id) != Some(i) ==> s.with_revoked(i).certificate(id) == s.certificate(
            id,
        ),
{
    let t = s.with_revoked(i);
    assert(ids(t.certs) =~= ids(s.certs));
    lemma_position(s.certs, id);
    match position(s.certs, id) {
        Some(k) => {
            if k != i {
                assert(t.certs[k] == s.certs[k]);
            }
        },
        None => {},
    }
}

/// Whoever has a valid certificate with a title holds a valid certificate with
/// that title, and only then; this is the same as finding such a certificate in
/// their portfolio. Issuing further certificates, to anyone, never takes such a
/// holding away.
pub proof fn law_valid_holding_meaning(
    s: ContractState,
    owner: Seq<char>,
    title: Seq<char>,
    cert: CertificateView,
    i: int,
)
    ensures
        0 <= i < s.certs.len() && s.certs[i].recipient == owner && s.certs[i].title == title
            && s.certs[i].is_valid ==> s.holds_valid(owner, title),
        s.holds_valid(owner, title) ==> exists|k: int|
            0 <= k < s.certs.len() && #[trigger] s.certs[k].recipient == owner && s.certs[k].title
                == title && s.certs[k].is_valid,
        s.holds_valid(owner, title) <==> exists|k: int|
            0 <= k < s.portfolio(owner).len() && #[trigger] s.portfolio(owner)[k].title == title
                && s.portfolio(owner)[k].is_valid,
        s.holds_valid(owner, title) ==> s.with_certificate(cert).holds_valid(owner, title),
{
    let p = s.portfolio(owner);
    if 0 <= i < s.certs.len() && s.certs[i].recipient == owner && s.certs[i].title == title
        && s.certs[i].is_valid {
        assert(s.certs[i].recipient == owner);
    }
    if s.holds_valid(owner, title) {
        let k = choose|k: int|
            0 <= k < s.certs.len() && #[trigger] s.certs[k].recipient == owner && s.certs[k].title
                == title && s.certs[k].is_valid;
        s.certs.lemma_filter_contains(held_by(owner), k);
        let j = choose|j: int| 0 <= j < p.len() && p[j] == s.certs[k];
        assert(p[j].title == title && p[j].is_valid);
        let t = s.with_certificate(cert);
        assert(t.certs[k] == s.certs[k]);
        assert(t.certs[k].recipient == owner);
    }
    if exists|k: int| 0 <= k < p.len() && #[trigger] p[k].title == title && p[k].is_valid {
        let j = choose|j: int| 0 <= j < p.len() && #[trigger] p[j].title == title && p[j].is_valid;
        let c = p[j];
        s.certs.lemma_filter_pred(held_by(owner), j);
        assert(p.contains(c));
        s.certs.lemma_filter_contains_rev(held_by(owner), c);
        let k = choose|k: int| 0 <= k < s.certs.len() && s.certs[k] == c;
        assert(s.certs[k].recipient == owner);
    }
}

/// The portfolio summary counts validity and nothing else: a certificate counts as
/// valid exactly when it is not revoked. Revoking a valid certificate of the owner
/// keeps the owner's total and lowers the valid count by one; revoking someone
/// else's certificate changes neither. Issuing a certificate to the owner raises
/// the total by one, and the valid count by one when it is valid; issuing to
/// someone else changes neither.
pub proof fn law_summary_counts(s: ContractState, owner: Seq<char>, i: int, cert: CertificateView)
    requires
        0 <= i < s.certs.len(),
    ensures
        forall|c: CertificateView| #[trigger] unrevoked()(c) == c.is_valid,
        s.with_revoked(i).portfolio(owner).len() == s.portfolio(owner).len(),
        s.certs[i].recipient == owner && s.certs[i].is_valid ==> s.with_revoked(i).portfolio(
            owner,
        ).filter(unrevoked()).len() + 1 == s.portfolio(owner).filter(unrevoked()).len(),
        s.certs[i].recipient != owner || !s.certs[i].is_valid ==> s.with_revoked(i).portfolio(
            owner,
        ).filter(unrevoked()).len() == s.portfolio(owner).filter(unrevoked()).len(),
        s.with_certificate(cert).portfolio(owner).len() == s.portfolio(owner).len() + (if cert.recipient
            == owner { 1int } else { 0int }),
        s.with_certificate(cert).portfolio(owner).filter(unrevoked()).len() == s.portfolio(
            owner,
        ).filter(unrevoked()).len() + (if cert.recipient == owner && cert.is_valid {
            1int
        } else {
            0int
        }),
{
    let v = CertificateView { is_valid: false, ..s.certs[i] };
    let t = s.with_revoked(i);
    let both = |x: CertificateView| held_by(owner)(x) && unrevoked()(x);
    lemma_filter_update_len(s.certs, i, v, held_by(owner));
    lemma_filter_update_len(s.certs, i, v, both);
    lemma_filter_filter(s.certs, held_by(owner), unrevoked());
    lemma_filter_filter(t.certs, held_by(owner), unrevoked());
    let u = s.with_certificate(cert);
    lemma_filter_filter(u.certs, held_by(owner), unrevoked());
    s.certs.lemma_filter_push(cert, held_by(owner));
    s.certs.lemma_filter_push(cert, both);
}

/// The list of an issuer's certificates holds exactly the certificates that it
/// issued, revoked or not; so a revocation never changes its length, and an issue
/// lengthens the issuer's list by one exactly when the issuer issued it.
pub proof fn law_issued_list(s: ContractState, issuer: Seq<char>, i: int, cert: CertificateView)
    requires
        0 <= i < s.certs.len(),
    ensures
        forall|c: CertificateView|
            s.issued(issuer).contains(c) <==> (s.certs.contains(c) && c.issuer_address == issuer),
        s.with_revoked(i).issued(issuer).len() == s.issued(issuer).len(),
        s.with_certificate(cert).issued(issuer).len() == s.issued(issuer).len() + (if cert.issuer_address
            == issuer { 1int } else { 0int }),
{
    let l = s.issued(issuer);
    assert forall|c: CertificateView|
        l.contains(c) <==> (s.certs.contains(c) && c.issuer_address == issuer) by {
        if l.contains(c) {
            s.certs.lemma_filter_contains_rev(issued_by(issuer), c);
            let j = choose|j: int| 0 <= j < l.len() && l[j] == c;
            s.certs.lemma_filter_pred(issued_by(issuer), j);
        }
        if s.certs.contains(c) && c.issuer_address == issuer {
            let k = choose|k: int| 0 <= k < s.certs.len() && s.certs[k] == c;
            s.certs.lemma_filter_contains(issued_by(issuer), k);
        }
    }
    let v = CertificateView { is_valid: false, ..s.certs[i] };
    lemma_filter_update_len(s.certs, i, v, issued_by(issuer));
    s.certs.lemma_filter_push(cert, issued_by(issuer));
}

/// Issuing appends exactly the new certificate after all earlier ones and changes
/// nothing else; registering an issuer appends it after the earlier issuers and
/// changes nothing else.
pub proof fn law_issue_and_register_append(s: ContractState, cert: CertificateView, issuer: Seq<char>)
    ensures
        s.with_certificate(cert).certs.len() == s.certs.len() + 1,
        s.with_certificate(cert).certs[s.certs.len() as int] == cert,
        forall|j: int|
            0 <= j < s.certs.len() ==> #[trigger] s.with_certificate(cert).certs[j] == s.certs[j],
        s.with_certificate(cert).admin == s.admin,
        s.with_certificate(cert).issuers == s.issuers,
        s.with_issuer(issuer).issuers.len() == s.issuers.len() + 1,
        s.with_issuer(issuer).issuers[s.issuers.len() as int] == issuer,
        forall|j: int|
            0 <= j < s.issuers.len() ==> #[trigger] s.with_issuer(issuer).issuers[j] == s.issuers[j],
        s.with_issuer(issuer).admin == s.admin,
        s.with_issuer(issuer).certs == s.certs,
{
}

} // verus!
