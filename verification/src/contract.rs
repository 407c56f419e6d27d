use vstd::prelude::*;
use vstd::string::StringExecFns;
use crate::address::Address;
use crate::certificate::{Certificate, CertificateView, Portfolio};
use crate::state::{
    held_by, issued_by, lookup, msg_already_revoked, msg_cert_missing, msg_issuer_added,
    msg_issuer_exists, msg_issuer_missing, msg_issuer_removed, msg_not_issuer, msg_revoked,
    position, unrevoked, ContractState,
};

verus! {

/// The stored state of the certificate contract, with its entry points.
pub struct CertificateContract {
    admin: Option<Address>,
    issuers: Vec<Address>,
    certs: Vec<Certificate>,
}

/// The view of an optional address.
pub open spec fn opt_view(a: Option<Address>) -> Option<Seq<char>> {
    match a {
        Some(x) => Some(x@),
        None => None,
    }
}

impl View for CertificateContract {
    type V = ContractState;

    closed spec fn view(&self) -> ContractState {
        ContractState {
            admin: opt_view(self.admin),
            issuers: self.issuers@.map_values(|a: Address| a@),
            certs: self.certs@.map_values(|c: Certificate| c@),
        }
    }
}

impl CertificateContract {
    /// A freshly deployed contract: no administrator, no issuers, no certificates.
    pub fn new() -> (r: CertificateContract)
        ensures
            r@ == ContractState::empty(),
    {
        let r = CertificateContract { admin: None, issuers: Vec::new(), certs: Vec::new() };
        assert(r@.issuers =~= Seq::<Seq<char>>::empty());
        assert(r@.certs =~= Seq::<CertificateView>::empty());
        r
    }

    /// The contract whose storage holds `admin`, `issuers` and `certs`.
    pub fn from_parts(admin: Option<Address>, issuers: Vec<Address>, certs: Vec<Certificate>) -> (r:
        CertificateContract)
        ensures
            r@.admin == opt_view(admin),
            r@.issuers == issuers@.map_values(|a: Address| a@),
            r@.certs == certs@.map_values(|c: Certificate| c@),
    {
        CertificateContract { admin, issuers, certs }
    }

    /// Whether the contract has an administrator.
    pub fn is_initialized(&self) -> (r: bool)
        ensures
            r == self@.is_initialized(),
    {
        self.admin.is_some()
    }

    /// The administrator, if the contract has been initialized.
    pub fn admin(&self) -> (r: Option<&Address>)
        ensures
            match r {
                Some(a) => self@.admin == Some(a@),
                None => self@.admin is None,
            },
    {
        match &self.admin {
            Some(a) => Some(a),
            None => None,
        }
    }

    /// The registered issuers, in the order in which they were added.
    pub fn issuers(&self) -> (r: &Vec<Address>)
        ensures
            r@.map_values(|a: Address| a@) == self@.issuers,
    {
        &self.issuers
    }

    /// Sets the administrator of a contract that has none.
    pub fn initialize(&mut self, admin: Address)
        requires
            !old(self)@.is_initialized(),
        ensures
            final(self)@ == (ContractState { admin: Some(admin@), ..old(self)@ }),
    {
        self.admin = Some(admin);
    }

    /// Whether `issuer` is a registered issuer.
    pub fn is_registered_issuer(&self, issuer: Address) -> (r: bool)
        ensures
            r == self@.is_issuer(issuer@),
    {
        let mut i: usize = 0;
        while i < self.issuers.len()
            invariant
                i <= self.issuers.len(),
                forall|j: int| 0 <= j < i ==> self@.issuers[j] != issuer@,
            decreases self.issuers.len() - i,
        {
            if self.issuers[i] == issuer {
                assert(self@.issuers[i as int] == issuer@);
                return true;
            }
            i += 1;
        }
        false
    }

    /// Registers `issuer`; `admin` is the administrator, who authorized the call.
    pub fn add_issuer(&mut self, admin: Address, issuer: Address) -> (r: String)
        requires
            old(self)@.is_admin(admin@),
            !old(self)@.is_issuer(issuer@) ==> old(self)@.issuers.len() < u32::MAX,
        ensures
            old(self)@.is_issuer(issuer@) ==> r@ == msg_issuer_exists() && final(self)@ == old(
                self,
            )@,
            !old(self)@.is_issuer(issuer@) ==> r@ == msg_issuer_added() && final(self)@ == old(
                self,
            )@.with_issuer(issuer@),
    {
        if self.is_registered_issuer(issuer.clone()) {
            return String::from_str("Issuer sudah terdaftar");
        }
        self.issuers.push(issuer);
        proof {
            assert(self@.issuers =~= old(self)@.issuers.push(issuer@));
        }
        String::from_str("Issuer berhasil didaftarkan")
    }

    /// Withdraws the registration of `issuer`; `admin` is the administrator, who
    /// authorized the call.
    pub fn remove_issuer(&mut self, admin: Address, issuer: Address) -> (r: String)
        requires
            old(self)@.is_admin(admin@),
        ensures
            old(self)@.is_issuer(issuer@) ==> r@ == msg_issuer_removed() && final(self)@ == old(
                self,
            )@.without_issuer(issuer@),
            !old(self)@.is_issuer(issuer@) ==> r@ == msg_issuer_missing() && final(self)@ == old(
                self,
            )@,
    {
        let mut i: usize = 0;
        while i < self.issuers.len()
            invariant
                i <= self.issuers.len(),
                self@ == old(self)@,
                forall|j: int| 0 <= j < i ==> self@.issuers[j] != issuer@,
            decreases self.issuers.len() - i,
        {
            if self.issuers[i] == issuer {
                let ghost before = self@.issuers;
                proof {
                    assert(before[i as int] == issuer@);
                    assert(before.contains(issuer@));
                    before.index_of_first_ensures(issuer@);
                    let k = before.index_of_first(issuer@).unwrap();
                    assert(k == i as int);
                }
                self.issuers.remove(i);
                proof {
                    assert(self@.issuers =~= before.remove(i as int));
                }
                return String::from_str("Issuer berhasil dihapus");
            }
            i += 1;
        }
        String::from_str("Issuer tidak ditemukan")
    }

    /// Issues a certificate with identifier `cert_id`, issued at `issued_at`, from
    /// the registered `issuer` to `recipient`; returns the identifier.
    pub fn issue_certificate(
        &mut self,
        issuer: Address,
        issuer_name: String,
        recipient: Address,
        recipient_name: String,
        title: String,
        category: String,
        cert_id: u64,
        issued_at: u64,
    ) -> (r: u64)
        requires
            old(self)@.is_issuer(issuer@),
            old(self)@.certs.len() < u32::MAX,
        ensures
            r == cert_id,
            final(self)@ == old(self)@.with_certificate(
                CertificateView {
                    id: cert_id,
                    recipient: recipient@,
                    recipient_name: recipient_name@,
                    issuer_name: issuer_name@,
                    issuer_address: issuer@,
                    title: title@,
                    category: category@,
                    issued_at,
                    is_valid: true,
                },
            ),
    {
        let cert = Certificate {
            id: cert_id,
            recipient,
            recipient_name,
            issuer_name,
            issuer_address: issuer,
            title,
            category,
            issued_at,
            is_valid: true,
        };
        self.certs.push(cert);
        proof {
            assert(self@.certs =~= old(self)@.certs.push(cert@));
        }
        cert_id
    }

    /// The index of the first certificate with identifier `cert_id`, if any.
    fn find_certificate(&self, cert_id: u64) -> (r: Option<usize>)
        ensures
            match r {
                Some(i) => position(self@.certs, cert_id) == Some(i as int) && i < self@.certs.len(),
                None => position(self@.certs, cert_id) is None,
            },
    {
        let ghost ids = crate::state::ids(self@.certs);
        let mut i: usize = 0;
        while i < self.certs.len()
            invariant
                i <= self.certs.len(),
                ids == crate::state::ids(self@.certs),
                forall|j: int| 0 <= j < i ==> ids[j] != cert_id,
            decreases self.certs.len() - i,
        {
            if self.certs[i].id == cert_id {
                proof {
                    assert(ids[i as int] == cert_id);
                    assert(ids.contains(cert_id));
                    ids.index_of_first_ensures(cert_id);
                    let k = ids.index_of_first(cert_id).unwrap();
                    assert(k == i as int);
                }
                return Some(i);
            }
            i += 1;
        }
        proof {
            ids.index_of_first_ensures(cert_id);
            if ids.contains(cert_id) {
                let k = choose|k: int| 0 <= k < ids.len() && ids[k] == cert_id;
                assert(ids[k] != cert_id);
            }
        }
        None
    }

    /// The first certificate with identifier `cert_id`, if any; anyone may ask.
    pub fn verify_certificate(&self, cert_id: u64) -> (r: Option<Certificate>)
        ensures
            match r {
                Some(c) => lookup(self@.certs, cert_id) == Some(c@),
                None => lookup(self@.certs, cert_id) is None,
            },
    {
        match self.find_certificate(cert_id) {
            Some(i) => Some(self.certs[i].clone()),
            None => None,
        }
    }

    /// Revokes the certificate with identifier `cert_id`, if `issuer` issued it and
    /// it is still valid.
    pub fn revoke_certificate(&mut self, issuer: Address, cert_id: u64) -> (r: String)
        ensures
            match position(old(self)@.certs, cert_id) {
                None => r@ == msg_cert_missing() && final(self)@ == old(self)@,
                Some(i) => if old(self)@.certs[i].issuer_address != issuer@ {
                    r@ == msg_not_issuer() && final(self)@ == old(self)@
                } else if !old(self)@.certs[i].is_valid {
                    r@ == msg_already_revoked() && final(self)@ == old(self)@
                } else {
                    r@ == msg_revoked() && final(self)@ == old(self)@.with_revoked(i)
                },
            },
    {
        match self.find_certificate(cert_id) {
            None => String::from_str("Sertifikat tidak ditemukan"),
            Some(i) => {
                if self.certs[i].issuer_address != issuer {
                    return String::from_str("Bukan penerbit sertifikat ini");
                }
                if !self.certs[i].is_valid {
                    return String::from_str("Sertifikat sudah dicabut sebelumnya");
                }
                let mut cert = self.certs[i].clone();
                cert.is_valid = false;
                self.certs.set(i, cert);
                proof {
                    let v = old(self)@.certs[i as int];
                    assert(cert@ == CertificateView { is_valid: false, ..v });
                    assert(self@.certs =~= old(self)@.certs.update(
                        i as int,
                        CertificateView { is_valid: false, ..v },
                    ));
                }
                String::from_str("Sertifikat berhasil dicabut")
            },
        }
    }

    /// The certificates held by `recipient`, in the order of issue.
    pub fn get_portfolio(&self, recipient: Address) -> (r: Vec<Certificate>)
        ensures
            r@.map_values(|c: Certificate| c@) == self@.portfolio(recipient@),
    {
        let ghost certs = self@.certs;
        let ghost pred = held_by(recipient@);
        let mut result: Vec<Certificate> = Vec::new();
        let mut i: usize = 0;
        while i < self.certs.len()
            invariant
                i <= self.certs.len(),
                certs == self@.certs,
                pred == held_by(recipient@),
                result@.map_values(|c: Certificate| c@) == certs.take(i as int).filter(pred),
            decreases self.certs.len() - i,
        {
            let ghost before = result@;
            proof {
                assert(certs.take(i + 1) =~= certs.take(i as int).push(certs[i as int]));
                certs.take(i as int).lemma_filter_push(certs[i as int], pred);
            }
            if self.certs[i].recipient == recipient {
                result.push(self.certs[i].clone());
                proof {
                    assert(result@.map_values(|c: Certificate| c@) =~= before.map_values(
                        |c: Certificate| c@,
                    ).push(certs[i as int]));
                }
            }
            i += 1;
        }
        proof {
            assert(certs.take(i as int) =~= certs);
        }
        result
    }

    /// The certificates issued by `issuer`, in the order of issue.
    pub fn get_issued_by(&self, issuer: Address) -> (r: Vec<Certificate>)
        ensures
            r@.map_values(|c: Certificate| c@) == self@.issued(issuer@),
    {
        let ghost certs = self@.certs;
        let ghost pred = issued_by(issuer@);
        let mut result: Vec<Certificate> = Vec::new();
        let mut i: usize = 0;
        while i < self.certs.len()
            invariant
                i <= self.certs.len(),
                certs == self@.certs,
                pred == issued_by(issuer@),
                result@.map_values(|c: Certificate| c@) == certs.take(i as int).filter(pred),
            decreases self.certs.len() - i,
        {
            let ghost before = result@;
            proof {
                assert(certs.take(i + 1) =~= certs.take(i as int).push(certs[i as int]));
                certs.take(i as int).lemma_filter_push(certs[i as int], pred);
            }
            if self.certs[i].issuer_address == issuer {
                result.push(self.certs[i].clone());
                proof {
                    assert(result@.map_values(|c: Certificate| c@) =~= before.map_values(
                        |c: Certificate| c@,
                    ).push(certs[i as int]));
                }
            }
            i += 1;
        }
        proof {
            assert(certs.take(i as int) =~= certs);
        }
        result
    }

    /// Every certificate ever issued, in the order of issue.
    pub fn get_all_certificates(&self) -> (r: Vec<Certificate>)
        ensures
            r@.map_values(|c: Certificate| c@) == self@.certs,
    {
        let mut result: Vec<Certificate> = Vec::new();
        let mut i: usize = 0;
        while i < self.certs.len()
            invariant
                i <= self.certs.len(),
                result@.map_values(|c: Certificate| c@) == self@.certs.take(i as int),
            decreases self.certs.len() - i,
        {
            let ghost before = result@;
            result.push(self.certs[i].clone());
            proof {
                assert(result@.map_values(|c: Certificate| c@) =~= before.map_values(
                    |c: Certificate| c@,
                ).push(self@.certs[i as int]));
                assert(self@.certs.take(i + 1) =~= self@.certs.take(i as int).push(
                    self@.certs[i as int],
                ));
            }
            i += 1;
        }
        proof {
            assert(self@.certs.take(i as int) =~= self@.certs);
        }
        result
    }

    /// How many certificates `recipient` holds, and how many of them are valid.
    pub fn get_portfolio_summary(&self, recipient: Address) -> (r: Portfolio)
        requires
            self@.certs.len() <= u32::MAX,
        ensures
            r.owner@ == recipient@,
            r.total_certs == self@.portfolio(recipient@).len(),
            r.valid_certs == self@.portfolio(recipient@).filter(unrevoked()).len(),
    {
        let portfolio = self.get_portfolio(recipient.clone());
        let ghost p = self@.portfolio(recipient@);
        let ghost pred = unrevoked();
        proof {
            self@.certs.lemma_filter_len(held_by(recipient@));
            assert(portfolio@.len() == p.len());
        }
        let mut valid_count: u32 = 0;
        let mut i: usize = 0;
        while i < portfolio.len()
            invariant
                i <= portfolio.len(),
                p.len() == portfolio.len(),
                p.len() <= u32::MAX,
                pred == unrevoked(),
                p == portfolio@.map_values(|c: Certificate| c@),
                valid_count == p.take(i as int).filter(pred).len(),
            decreases portfolio.len() - i,
        {
            proof {
                assert(p.take(i + 1) =~= p.take(i as int).push(p[i as int]));
                p.take(i as int).lemma_filter_push(p[i as int], pred);
                p.take(i as int).lemma_filter_len(pred);
                assert(p[i as int].is_valid == portfolio@[i as int].is_valid);
            }
            if portfolio[i].is_valid {
                valid_count += 1;
            }
            i += 1;
        }
        proof {
            assert(p.take(i as int) =~= p);
        }
        Portfolio { owner: recipient, total_certs: portfolio.len() as u32, valid_certs: valid_count }
    }

    /// Whether `recipient` holds a valid certificate titled `title`.
    pub fn has_valid_certificate(&self, recipient: Address, title: String) -> (r: bool)
        ensures
            r == self@.holds_valid(recipient@, title@),
    {
        let portfolio = self.get_portfolio(recipient.clone());
        let ghost p = self@.portfolio(recipient@);
        let ghost certs = self@.certs;
        let mut i: usize = 0;
        while i < portfolio.len()
            invariant
                i <= portfolio.len(),
                p == portfolio@.map_values(|c: Certificate| c@),
                p == certs.filter(held_by(recipient@)),
                certs == self@.certs,
                forall|j: int| 0 <= j < i ==> !(p[j].title == title@ && p[j].is_valid),
            decreases portfolio.len() - i,
        {
            let cert = &portfolio[i];
            if cert.title == title && cert.is_valid {
                proof {
                    let c = p[i as int];
                    certs.lemma_filter_pred(held_by(recipient@), i as int);
                    assert(p.contains(c));
                    certs.lemma_filter_contains_rev(held_by(recipient@), c);
                    let k = choose|k: int| 0 <= k < certs.len() && certs[k] == c;
                    assert(certs[k].recipient == recipient@);
                }
                return true;
            }
            i += 1;
        }
        proof {
            if self@.holds_valid(recipient@, title@) {
                let k = choose|k: int|
                    0 <= k < certs.len() && #[trigger] certs[k].recipient == recipient@
                        && certs[k].title == title@ && certs[k].is_valid;
                certs.lemma_filter_contains(held_by(recipient@), k);
                let j = choose|j: int| 0 <= j < p.len() && p[j] == certs[k];
                assert(!(p[j].title == title@ && p[j].is_valid));
            }
        }
        false
    }
}

} // verus!
