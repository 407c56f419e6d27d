use onchain_certificates::{Address, CertificateContract};

fn addr(key: &str) -> Address {
    Address::new(key.to_string())
}

fn s(text: &str) -> String {
    text.to_string()
}

// A freshly deployed contract, initialized with an administrator.
fn setup() -> (CertificateContract, Address) {
    let admin = addr("GADMIN0000000000000000000000000000000000000000000000000001");
    let mut contract = CertificateContract::new();
    contract.initialize(admin.clone());
    (contract, admin)
}

#[test]
fn test_initialize() {
    let (contract, admin) = setup();
    assert!(contract.is_initialized());
    assert_eq!(contract.admin(), Some(&admin));
}

#[test]
fn test_add_and_check_issuer() {
    let (mut contract, admin) = setup();
    let issuer = addr("GISSUER");

    let result = contract.add_issuer(admin.clone(), issuer.clone());
    assert_eq!(result, s("Issuer berhasil didaftarkan"));
    assert!(contract.is_registered_issuer(issuer));
}

#[test]
fn test_add_duplicate_issuer() {
    let (mut contract, admin) = setup();
    let issuer = addr("GISSUER");

    contract.add_issuer(admin.clone(), issuer.clone());
    let result = contract.add_issuer(admin.clone(), issuer.clone());
    assert_eq!(result, s("Issuer sudah terdaftar"));
}

#[test]
fn test_remove_issuer() {
    let (mut contract, admin) = setup();
    let issuer = addr("GISSUER");

    contract.add_issuer(admin.clone(), issuer.clone());
    assert!(contract.is_registered_issuer(issuer.clone()));

    let result = contract.remove_issuer(admin.clone(), issuer.clone());
    assert_eq!(result, s("Issuer berhasil dihapus"));
    assert!(!contract.is_registered_issuer(issuer));
}

#[test]
fn test_issue_certificate() {
    let (mut contract, admin) = setup();
    let issuer = addr("GISSUER");
    let recipient = addr("GRECIPIENT");

    contract.add_issuer(admin.clone(), issuer.clone());

    let cert_id = contract.issue_certificate(
        issuer.clone(),
        s("Dicoding Indonesia"),
        recipient.clone(),
        s("Budi Santoso"),
        s("React Developer Intermediate"),
        s("bootcamp"),
        8_417_003_215_u64,
        1_700_000_000,
    );

    let cert = contract.verify_certificate(cert_id).unwrap();
    assert_eq!(cert.id, cert_id);
    assert_eq!(cert.recipient, recipient);
    assert_eq!(cert.issuer_address, issuer);
    assert!(cert.is_valid);
}

#[test]
fn test_revoke_certificate() {
    let (mut contract, admin) = setup();
    let issuer = addr("GISSUER");
    let recipient = addr("GRECIPIENT");

    contract.add_issuer(admin.clone(), issuer.clone());
    let cert_id = contract.issue_certificate(
        issuer.clone(),
        s("Dicoding"),
        recipient.clone(),
        s("Andi"),
        s("Flutter Pemula"),
        s("bootcamp"),
        42,
        1_700_000_000,
    );

    let result = contract.revoke_certificate(issuer.clone(), cert_id);
    assert_eq!(result, s("Sertifikat berhasil dicabut"));

    // The certificate is still there, but no longer valid.
    let cert = contract.verify_certificate(cert_id).unwrap();
    assert!(!cert.is_valid);
}

#[test]
fn test_revoke_by_wrong_issuer() {
    let (mut contract, admin) = setup();
    let issuer_a = addr("GISSUERA");
    let issuer_b = addr("GISSUERB");
    let recipient = addr("GRECIPIENT");

    contract.add_issuer(admin.clone(), issuer_a.clone());
    contract.add_issuer(admin.clone(), issuer_b.clone());

    let cert_id = contract.issue_certificate(
        issuer_a.clone(),
        s("Lembaga A"),
        recipient.clone(),
        s("Siti"),
        s("Python Dasar"),
        s("vokasi"),
        7,
        1_700_000_000,
    );

    let result = contract.revoke_certificate(issuer_b.clone(), cert_id);
    assert_eq!(result, s("Bukan penerbit sertifikat ini"));
}

#[test]
fn test_get_portfolio() {
    let (mut contract, admin) = setup();
    let issuer = addr("GISSUER");
    let recipient = addr("GRECIPIENT");

    contract.add_issuer(admin.clone(), issuer.clone());

    contract.issue_certificate(issuer.clone(), s("Dicoding"), recipient.clone(), s("Rina"),
        s("React Dasar"), s("bootcamp"), 1, 1_700_000_000);
    contract.issue_certificate(issuer.clone(), s("Dicoding"), recipient.clone(), s("Rina"),
        s("Node.js Dasar"), s("bootcamp"), 2, 1_700_000_001);
    contract.issue_certificate(issuer.clone(), s("Dicoding"), recipient.clone(), s("Rina"),
        s("Docker Fundamental"), s("devops"), 3, 1_700_000_002);

    let portfolio = contract.get_portfolio(recipient.clone());
    assert_eq!(portfolio.len(), 3);

    let summary = contract.get_portfolio_summary(recipient.clone());
    assert_eq!(summary.total_certs, 3);
    assert_eq!(summary.valid_certs, 3);
}

#[test]
fn test_has_valid_certificate() {
    let (mut contract, admin) = setup();
    let issuer = addr("GISSUER");
    let kandidat = addr("GKANDIDAT");

    contract.add_issuer(admin.clone(), issuer.clone());
    let cert_id = contract.issue_certificate(
        issuer.clone(),
        s("Hacktiv8"),
        kandidat.clone(),
        s("Doni Prasetyo"),
        s("Full Stack JavaScript"),
        s("bootcamp"),
        99,
        1_700_000_000,
    );

    assert!(contract.has_valid_certificate(kandidat.clone(), s("Full Stack JavaScript")));

    contract.revoke_certificate(issuer.clone(), cert_id);
    assert!(!contract.has_valid_certificate(kandidat.clone(), s("Full Stack JavaScript")));
}
