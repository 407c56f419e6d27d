use onchain_certificates::{Address, Certificate, CertificateContract};

fn addr(key: &str) -> Address {
    Address::new(key.to_string())
}

fn s(text: &str) -> String {
    text.to_string()
}

fn setup_with_issuers(keys: &[&str]) -> (CertificateContract, Address) {
    let admin = addr("GADMIN");
    let mut contract = CertificateContract::new();
    contract.initialize(admin.clone());
    for key in keys {
        contract.add_issuer(admin.clone(), addr(key));
    }
    (contract, admin)
}

fn issue(contract: &mut CertificateContract, issuer: &str, recipient: &str, title: &str, id: u64) -> u64 {
    contract.issue_certificate(addr(issuer), s("Lembaga"), addr(recipient), s("Nama"), s(title),
        s("bootcamp"), id, 1_000 + id)
}

#[test]
fn new_contract_is_empty() {
    let contract = CertificateContract::new();
    assert!(!contract.is_initialized());
    assert!(contract.admin().is_none());
    assert!(contract.issuers().is_empty());
    assert!(contract.get_all_certificates().is_empty());
    assert!(contract.verify_certificate(1).is_none());
    assert!(!contract.is_registered_issuer(addr("GX")));
}

#[test]
fn remove_unknown_issuer_reports_missing() {
    let (mut contract, admin) = setup_with_issuers(&["GA"]);
    let result = contract.remove_issuer(admin, addr("GB"));
    assert_eq!(result, s("Issuer tidak ditemukan"));
    assert_eq!(contract.issuers().len(), 1);
    assert!(contract.is_registered_issuer(addr("GA")));
}

#[test]
fn remove_keeps_other_issuers_in_order() {
    let (mut contract, admin) = setup_with_issuers(&["GA", "GB", "GC"]);
    contract.remove_issuer(admin, addr("GB"));
    let keys: Vec<String> = contract.issuers().iter().map(|a| a.key().clone()).collect();
    assert_eq!(keys, vec![s("GA"), s("GC")]);
}

#[test]
fn re_adding_a_removed_issuer_registers_it_again() {
    let (mut contract, admin) = setup_with_issuers(&["GA"]);
    assert_eq!(contract.remove_issuer(admin.clone(), addr("GA")), s("Issuer berhasil dihapus"));
    assert_eq!(contract.add_issuer(admin.clone(), addr("GA")), s("Issuer berhasil didaftarkan"));
    assert!(contract.is_registered_issuer(addr("GA")));
}

#[test]
fn issued_certificate_has_every_field() {
    let (mut contract, _admin) = setup_with_issuers(&["GA"]);
    let id = contract.issue_certificate(addr("GA"), s("Universitas Indonesia"), addr("GR"),
        s("Budi"), s("Sarjana Komputer"), s("akademik"), 555, 1_725_029_869);
    assert_eq!(id, 555);
    let cert = contract.verify_certificate(555).unwrap();
    assert_eq!(cert.id, 555);
    assert_eq!(cert.recipient, addr("GR"));
    assert_eq!(cert.recipient_name, s("Budi"));
    assert_eq!(cert.issuer_name, s("Universitas Indonesia"));
    assert_eq!(cert.issuer_address, addr("GA"));
    assert_eq!(cert.title, s("Sarjana Komputer"));
    assert_eq!(cert.category, s("akademik"));
    assert_eq!(cert.issued_at, 1_725_029_869);
    assert!(cert.is_valid);
}

#[test]
fn revoke_unknown_certificate_reports_missing() {
    let (mut contract, _admin) = setup_with_issuers(&["GA"]);
    issue(&mut contract, "GA", "GR", "T", 1);
    assert_eq!(contract.revoke_certificate(addr("GA"), 2), s("Sertifikat tidak ditemukan"));
    assert!(contract.verify_certificate(1).unwrap().is_valid);
}

#[test]
fn revoking_twice_reports_already_revoked() {
    let (mut contract, _admin) = setup_with_issuers(&["GA"]);
    issue(&mut contract, "GA", "GR", "T", 1);
    assert_eq!(contract.revoke_certificate(addr("GA"), 1), s("Sertifikat berhasil dicabut"));
    assert_eq!(contract.revoke_certificate(addr("GA"), 1), s("Sertifikat sudah dicabut sebelumnya"));
    assert!(!contract.verify_certificate(1).unwrap().is_valid);
}

#[test]
fn wrong_issuer_leaves_certificate_valid() {
    let (mut contract, _admin) = setup_with_issuers(&["GA", "GB"]);
    issue(&mut contract, "GA", "GR", "T", 1);
    contract.revoke_certificate(addr("GB"), 1);
    assert!(contract.verify_certificate(1).unwrap().is_valid);
}

#[test]
fn lookup_finds_the_first_of_equal_identifiers() {
    let (mut contract, _admin) = setup_with_issuers(&["GA"]);
    issue(&mut contract, "GA", "GR1", "First", 9);
    issue(&mut contract, "GA", "GR2", "Second", 9);
    let cert = contract.verify_certificate(9).unwrap();
    assert_eq!(cert.title, s("First"));
    // Revocation reaches the first one only.
    contract.revoke_certificate(addr("GA"), 9);
    let all = contract.get_all_certificates();
    assert!(!all[0].is_valid);
    assert!(all[1].is_valid);
}

#[test]
fn a_removed_issuer_can_still_revoke_its_certificates() {
    let (mut contract, admin) = setup_with_issuers(&["GA"]);
    issue(&mut contract, "GA", "GR", "T", 1);
    contract.remove_issuer(admin, addr("GA"));
    assert_eq!(contract.revoke_certificate(addr("GA"), 1), s("Sertifikat berhasil dicabut"));
}

#[test]
fn portfolio_and_issued_by_select_and_keep_order() {
    let (mut contract, _admin) = setup_with_issuers(&["GA", "GB"]);
    issue(&mut contract, "GA", "GR1", "A1", 1);
    issue(&mut contract, "GB", "GR2", "B2", 2);
    issue(&mut contract, "GB", "GR1", "B1", 3);
    issue(&mut contract, "GA", "GR2", "A2", 4);

    let ids = |v: Vec<Certificate>| v.iter().map(|c| c.id).collect::<Vec<u64>>();
    assert_eq!(ids(contract.get_portfolio(addr("GR1"))), vec![1, 3]);
    assert_eq!(ids(contract.get_portfolio(addr("GR2"))), vec![2, 4]);
    assert_eq!(ids(contract.get_issued_by(addr("GA"))), vec![1, 4]);
    assert_eq!(ids(contract.get_issued_by(addr("GB"))), vec![2, 3]);
    assert_eq!(ids(contract.get_all_certificates()), vec![1, 2, 3, 4]);
    assert!(contract.get_portfolio(addr("GNOBODY")).is_empty());
}

#[test]
fn summary_counts_revoked_certificates_apart() {
    let (mut contract, _admin) = setup_with_issuers(&["GA"]);
    issue(&mut contract, "GA", "GR", "T1", 1);
    issue(&mut contract, "GA", "GR", "T2", 2);
    issue(&mut contract, "GA", "GOTHER", "T3", 3);
    contract.revoke_certificate(addr("GA"), 2);
    let summary = contract.get_portfolio_summary(addr("GR"));
    assert_eq!(summary.owner, addr("GR"));
    assert_eq!(summary.total_certs, 2);
    assert_eq!(summary.valid_certs, 1);
    let empty = contract.get_portfolio_summary(addr("GNOBODY"));
    assert_eq!(empty.total_certs, 0);
    assert_eq!(empty.valid_certs, 0);
}

#[test]
fn valid_certificate_check_needs_title_recipient_and_validity() {
    let (mut contract, _admin) = setup_with_issuers(&["GA"]);
    issue(&mut contract, "GA", "GR", "Rust", 1);
    issue(&mut contract, "GA", "GR", "Rust", 2);
    assert!(contract.has_valid_certificate(addr("GR"), s("Rust")));
    assert!(!contract.has_valid_certificate(addr("GR"), s("Go")));
    assert!(!contract.has_valid_certificate(addr("GOTHER"), s("Rust")));
    contract.revoke_certificate(addr("GA"), 1);
    // A second valid certificate with the same title still counts.
    assert!(contract.has_valid_certificate(addr("GR"), s("Rust")));
    contract.revoke_certificate(addr("GA"), 2);
    assert!(!contract.has_valid_certificate(addr("GR"), s("Rust")));
}

#[test]
fn from_parts_restores_a_stored_state() {
    let (mut contract, admin) = setup_with_issuers(&["GA", "GB"]);
    issue(&mut contract, "GA", "GR", "T", 1);
    let restored = CertificateContract::from_parts(
        Some(admin.clone()),
        contract.issuers().clone(),
        contract.get_all_certificates(),
    );
    assert_eq!(restored.admin(), Some(&admin));
    assert!(restored.is_registered_issuer(addr("GB")));
    assert_eq!(restored.verify_certificate(1).unwrap().title, s("T"));
}

#[test]
fn address_equality_goes_by_key() {
    assert_eq!(addr("GA"), addr("GA"));
    assert_ne!(addr("GA"), addr("GB"));
    assert_eq!(addr("GA").key(), &s("GA"));
}
