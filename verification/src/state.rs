use vstd::prelude::*;
use crate::certificate::CertificateView;

verus! {

/// The mathematical value of the contract's stored state.
pub struct ContractState {
    /// The administrator, once the contract has been initialized.
    pub admin: Option<Seq<char>>,
    /// The registered issuers, in the order in which they were added.
    pub issuers: Seq<Seq<char>>,
    /// Every certificate ever issued, in the order of issue.
    pub certs: Seq<CertificateView>,
}

/// Reply of `add_issuer` when the issuer was added.
pub open spec fn msg_issuer_added() -> Seq<char> {
    "Issuer berhasil didaftarkan"@
}

/// Reply of `add_issuer` when the issuer was already registered.
pub open spec fn msg_issuer_exists() -> Seq<char> {
    "Issuer sudah terdaftar"@
}

/// Reply of `remove_issuer` when the issuer was removed.
pub open spec fn msg_issuer_removed() -> Seq<char> {
    "Issuer berhasil dihapus"@
}

/// Reply of `remove_issuer` when the issuer was not registered.
pub open spec fn msg_issuer_missing() -> Seq<char> {
    "Issuer tidak ditemukan"@
}

/// Reply of `revoke_certificate` when the certificate was revoked.
pub open spec fn msg_revoked() -> Seq<char> {
    "Sertifikat berhasil dicabut"@
}

/// Reply of `revoke_certificate` when the caller did not issue the certificate.
pub open spec fn msg_not_issuer() -> Seq<char> {
    "Bukan penerbit sertifikat ini"@
}

/// Reply of `revoke_certificate` when the certificate was revoked before.
pub open spec fn msg_already_revoked() -> Seq<char> {
    "Sertifikat sudah dicabut sebelumnya"@
}

/// Reply of `revoke_certificate` when no certificate has the identifier.
pub open spec fn msg_cert_missing() -> Seq<char> {
    "Sertifikat tidak ditemukan"@
}

/// The identifiers of `certs`, in order.
pub open spec fn ids(certs: Seq<CertificateView>) -> Seq<u64> {
    certs.map_values(|c: CertificateView| c.id)
}

/// The index of the first certificate in `certs` with identifier `id`.
pub open spec fn position(certs: Seq<CertificateView>, id: u64) -> Option<int> {
    ids(certs).index_of_first(id)
}

/// The first certificate in `certs` with identifier `id`, if any.
pub open spec fn lookup(certs: Seq<CertificateView>, id: u64) -> Option<CertificateView> {
    match position(certs, id) {
        Some(i) => Some(certs[i]),
        None => None,
    }
}

/// Holds of the certificates whose recipient is `owner`.
pub open spec fn held_by(owner: Seq<char>) -> spec_fn(CertificateView) -> bool {
    |c: CertificateView| c.recipient == owner
}

/// Holds of the certificates that `issuer` issued.
pub open spec fn issued_by(issuer: Seq<char>) -> spec_fn(CertificateView) -> bool {
    |c: CertificateView| c.issuer_address == issuer
}

/// Holds of the certificates that have not been revoked.
pub open spec fn unrevoked() -> spec_fn(CertificateView) -> bool {
    |c: CertificateView| c.is_valid
}

impl ContractState {
    /// The state of a freshly deployed contract.
    pub open spec fn empty() -> ContractState {
        ContractState { admin: None, issuers: Seq::empty(), certs: Seq::empty() }
    }

    pub open spec fn is_initialized(self) -> bool {
        self.admin is Some
    }

    /// `caller` is the administrator of an initialized contract.
    pub open spec fn is_admin(self, caller: Seq<char>) -> bool {
        self.admin == Some(caller)
    }

    pub open spec fn is_issuer(self, a: Seq<char>) -> bool {
        self.issuers.contains(a)
    }

    /// The certificate that a lookup by `id` finds.
    pub open spec fn certificate(self, id: u64) -> Option<CertificateView> {
        lookup(self.certs, id)
    }

    /// The certificates held by `owner`, in the order of issue.
    pub open spec fn portfolio(self, owner: Seq<char>) -> Seq<CertificateView> {
        self.certs.filter(held_by(owner))
    }

    /// The certificates issued by `issuer`, in the order of issue.
    pub open spec fn issued(self, issuer: Seq<char>) -> Seq<CertificateView> {
        self.certs.filter(issued_by(issuer))
    }

    /// `owner` holds an unrevoked certificate titled `title`.
    pub open spec fn holds_valid(self, owner: Seq<char>, title: Seq<char>) -> bool {
        exists|i: int|
            0 <= i < self.certs.len() && #[trigger] self.certs[i].recipient == owner
                && self.certs[i].title == title && self.certs[i].is_valid
    }

    /// The state with `issuer` appended to the registered issuers.
    pub open spec fn with_issuer(self, issuer: Seq<char>) -> ContractState {
        ContractState { issuers: self.issuers.push(issuer), ..self }
    }

    /// The state with the first registration of `issuer` removed.
    pub open spec fn without_issuer(self, issuer: Seq<char>) -> ContractState {
        ContractState { issuers: self.issuers.remove_value(issuer), ..self }
    }

    /// The state with `cert` appended to the certificates.
    pub open spec fn with_certificate(self, cert: CertificateView) -> ContractState {
        ContractState { certs: self.certs.push(cert), ..self }
    }

    /// The state with the certificate at index `i` marked revoked.
    pub open spec fn with_revoked(self, i: int) -> ContractState {
        ContractState {
            certs: self.certs.update(i, CertificateView { is_valid: false, ..self.certs[i] }),
            ..self
        }
    }
}

} // verus!
