use vstd::prelude::*;
use crate::address::Address;

verus! {

/// A certificate issued to a recipient.
#[derive(Debug)]
pub struct Certificate {
    pub id: u64,
    /// Address of the recipient's wallet.
    pub recipient: Address,
    /// Full name of the recipient.
    pub recipient_name: String,
    /// Name of the issuing institution.
    pub issuer_name: String,
    /// Address of the issuer; only this address may revoke the certificate.
    pub issuer_address: Address,
    /// Title of the certificate, such as the skill it attests.
    pub title: String,
    /// Category, such as "akademik", "vokasi" or "bootcamp".
    pub category: String,
    /// Ledger time (UNIX seconds) at which it was issued.
    pub issued_at: u64,
    /// Whether the certificate still stands (it has not been revoked).
    pub is_valid: bool,
}

/// The mathematical value of a [`Certificate`].
pub struct CertificateView {
    pub id: u64,
    pub recipient: Seq<char>,
    pub recipient_name: Seq<char>,
    pub issuer_name: Seq<char>,
    pub issuer_address: Seq<char>,
    pub title: Seq<char>,
    pub category: Seq<char>,
    pub issued_at: u64,
    pub is_valid: bool,
}

impl View for Certificate {
    type V = CertificateView;

    open spec fn view(&self) -> CertificateView {
        CertificateView {
            id: self.id,
            recipient: self.recipient@,
            recipient_name: self.recipient_name@,
            issuer_name: self.issuer_name@,
            issuer_address: self.issuer_address@,
            title: self.title@,
            category: self.category@,
            issued_at: self.issued_at,
            is_valid: self.is_valid,
        }
    }
}

impl Clone for Certificate {
    fn clone(&self) -> (r: Certificate)
        ensures
            r@ == self@,
    {
        Certificate {
            id: self.id,
            recipient: self.recipient.clone(),
            recipient_name: self.recipient_name.clone(),
            issuer_name: self.issuer_name.clone(),
            issuer_address: self.issuer_address.clone(),
            title: self.title.clone(),
            category: self.category.clone(),
            issued_at: self.issued_at,
            is_valid: self.is_valid,
        }
    }
}

/// Summary of the certificates that one address holds.
#[derive(Debug)]
pub struct Portfolio {
    pub owner: Address,
    /// Number of certificates held.
    pub total_certs: u32,
    /// Number of those that are still valid.
    pub valid_certs: u32,
}

} // verus!
