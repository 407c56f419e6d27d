//! A registry of skill certificates and academic credentials.
//!
//! An administrator registers trusted issuers; a registered issuer issues
//! certificates to recipients and may later revoke the ones it issued; anyone
//! may look a certificate up, list a recipient's portfolio or an issuer's
//! certificates, and check whether a recipient holds a valid certificate for
//! a given skill.
//!
//! [`CertificateContract`] is the contract's stored state: the administrator,
//! the list of registered issuers and the list of every certificate ever
//! issued. Its methods are the contract's entry points, with the ledger's
//! services (authorization, randomness, the clock, persistent storage) left
//! to the caller.

mod address;
mod certificate;
mod state;
mod contract;
mod laws;

pub use address::Address;
pub use contract::{opt_view, CertificateContract};
pub use certificate::{Certificate, CertificateView, Portfolio};
pub use state::{
    held_by, ids, issued_by, lookup, msg_already_revoked, msg_cert_missing, msg_issuer_added,
    msg_issuer_exists, msg_issuer_missing, msg_issuer_removed, msg_not_issuer, msg_revoked,
    position, unrevoked, ContractState,
};
pub use laws::{
    keeps_history, law_add_issuer_keeps_issuers_distinct, law_add_issuer_registers,
    law_changes_keep_history, law_issue_keeps_earlier_lookups, law_issued_certificate_is_found,
    law_portfolio_summary, law_remove_issuer_unregisters, law_revoked_certificate_is_found_revoked,
    law_valid_holdings, lemma_position, law_revocation_touches_one_certificate,
    law_valid_holding_meaning, law_summary_counts, law_issued_list, lemma_filter_update_len,
    lemma_filter_filter, law_issue_and_register_append,
};
