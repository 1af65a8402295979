use smtp::{check_address, Error};

#[test]
fn accepts_simple_addresses() {
    assert!(check_address("a@x.io").is_ok());
    assert!(check_address("user@example.com").is_ok());
    assert!(check_address("a_b+c@mail.org").is_ok());
    assert!(check_address("a.b@sub.example.co").is_ok());
    assert!(check_address("a@mail-host.org").is_ok());
    assert!(check_address("1@2.ab").is_ok());
}

#[test]
fn accepts_prefix_matches_with_trailing_text() {
    // the validator anchors only the start; trailing text is tolerated
    assert!(check_address("a@b.co!!!").is_ok());
    assert!(check_address("a@b.company-extra").is_ok());
}

#[test]
fn rejects_upper_case() {
    assert!(check_address("A@x.io").is_err());
    assert!(check_address("a@X.io").is_err());
}

#[test]
fn rejects_missing_parts() {
    assert!(check_address("").is_err());
    assert!(check_address("@x.io").is_err());
    assert!(check_address("a@").is_err());
    assert!(check_address("a").is_err());
    assert!(check_address("a@x").is_err());
    assert!(check_address("a@x.i").is_err());
}

#[test]
fn rejects_bad_local_part() {
    assert!(check_address(".a@x.io").is_err());
    assert!(check_address("a.@x.io").is_err());
    assert!(check_address("a b@x.io").is_err());
}

#[test]
fn rejects_bad_domain() {
    assert!(check_address("a@-x.io").is_err());
    assert!(check_address("a@x..io").is_err());
    assert!(check_address("a@x.2o").is_err());
}

#[test]
fn error_carries_the_address() {
    match check_address("not an address") {
        Err(Error::MailBoxName(s)) => assert_eq!(s, "not an address"),
        _ => panic!("expected MailBoxName"),
    }
}
