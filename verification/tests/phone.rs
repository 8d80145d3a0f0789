use imessage_rs::phone::normalize_address;

#[test]
fn normalize_email() {
    assert_eq!(normalize_address("Foo@Bar.com", "US"), "foo@bar.com");
}

#[test]
fn normalize_us_phone() {
    assert_eq!(normalize_address("+1 (202) 555-0100", "US"), "+12025550100");
}

#[test]
fn normalize_us_phone_no_country_code() {
    assert_eq!(normalize_address("(202) 555-0100", "US"), "+12025550100");
}

#[test]
fn normalize_already_e164() {
    assert_eq!(normalize_address("+12025550100", "US"), "+12025550100");
}

#[test]
fn normalize_invalid_phone_falls_back() {
    assert_eq!(normalize_address("12345", "US"), "12345");
}

#[test]
fn normalize_invalid_falls_back() {
    assert_eq!(normalize_address("not-a-number", "US"), "not-a-number");
}

#[test]
fn normalize_empty() {
    assert_eq!(normalize_address("", "US"), "");
}

#[test]
fn normalize_trims_and_defaults_region() {
    assert_eq!(normalize_address("  (202) 555-0100 ", ""), "+12025550100");
    assert_eq!(normalize_address("   ", "US"), "");
    assert_eq!(normalize_address("  A@B.ORG ", "US"), "a@b.org");
}

#[test]
fn empty_region_reads_numbers_as_us() {
    assert_eq!(normalize_address("(202) 555-0100", ""), "+12025550100");
}
