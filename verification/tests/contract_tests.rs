use hikmalayer::contract::ContractExecutor;
use hikmalayer::token::Token;

#[test]
fn certificates_are_issued_verified_and_rewarded() {
    let mut contracts = ContractExecutor::new();
    let mut token = Token::new("Metacation Token", "MCT", 1000, "admin");

    contracts.issue_certificate("cert-1", "student", "Completed the course");
    assert_eq!(contracts.certificates.len(), 1);
    assert!(!contracts.certificates[0].verified);

    // An unverified certificate earns nothing.
    assert!(!contracts.reward_certificate_holder(&mut token, "cert-1", 25));
    assert_eq!(token.balance_of("student"), 0);

    assert!(contracts.verify_certificate("cert-1"));
    assert!(!contracts.verify_certificate("cert-2"));

    assert!(contracts.reward_certificate_holder(&mut token, "cert-1", 25));
    assert_eq!(token.balance_of("student"), 25);
    assert_eq!(token.total_supply, 1025);

    // An unknown certificate earns nothing either.
    assert!(!contracts.reward_certificate_holder(&mut token, "cert-9", 25));
    assert_eq!(token.total_supply, 1025);
}

#[test]
fn reissuing_a_certificate_resets_it() {
    let mut contracts = ContractExecutor::new();
    contracts.issue_certificate("cert-1", "student", "First run");
    assert!(contracts.verify_certificate("cert-1"));
    contracts.issue_certificate("cert-1", "student", "Second run");
    assert_eq!(contracts.certificates.len(), 1);
    assert!(!contracts.certificates[0].verified);
    assert_eq!(contracts.certificates[0].description, "Second run");
}
