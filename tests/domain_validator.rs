use portier::domain_validator::{DomainValidationError, DomainValidator, SuffixParseError};
use portier::string_list::parse_list_line;

// Entries of the IANA TLD list that the checks below reach.
const TLD_LINES: &[&str] = &[
    "# Version 2024010100, Last Updated Mon Jan  1 07:07:01 2024 UTC",
    "AC",
    "BIZ",
    "CK",
    "CN",
    "COM",
    "JP",
    "MM",
    "US",
    "XN--FIQS8S",
];

// Entries of the public-suffix list that the checks below reach.
const SUFFIX_LINES: &[&str] = &[
    "// ac : https://en.wikipedia.org/wiki/.ac",
    "ac",
    "com.ac",
    "",
    "biz",
    "// ck : https://en.wikipedia.org/wiki/.ck",
    "*.ck",
    "!www.ck",
    "cn",
    "com.cn",
    "公司.cn",
    "中国",
    "com",
    "jp",
    "ac.jp",
    "kyoto.jp",
    "ide.kyoto.jp",
    "*.kobe.jp",
    "!city.kobe.jp",
    "*.mm",
    "us",
    "ak.us",
    "k12.ak.us",
    "uk.com   some trailing text",
];

fn standard_validator() -> DomainValidator {
    let mut validator = DomainValidator::default();
    for line in TLD_LINES {
        if let Some(tld) = parse_list_line(line) {
            validator.add_valid_tld(&tld).unwrap();
        }
    }
    for line in SUFFIX_LINES {
        if let Some(suffix) = parse_list_line(line) {
            validator.add_valid_suffix(&suffix).unwrap();
        }
    }
    validator
}

#[test]
fn test_suffixlist() {
    let mut validator = standard_validator();
    // Include `example` TLD to make the 'Unlisted TLD' tests pass.
    validator.add_valid_tld("example").unwrap();

    let check = |input: &str, ok: bool| {
        let res = validator.validate(input);
        if res.is_ok() != ok {
            panic!("Validation of domain '{}' returned: {:?}", input, res);
        }
    };

    // Mixed case.
    check("COM", false);
    check("example.COM", true);
    check("WwW.example.COM", true);
    // Leading dot.
    check(".com", false);
    check(".example", false);
    check(".example.com", false);
    check(".example.example", false);
    // Unlisted TLD.
    check("example", false);
    check("example.example", true);
    check("b.example.example", true);
    check("a.b.example.example", true);
    // Listed, but non-Internet, TLD.
    check("local", false);
    check("example.local", false);
    check("b.example.local", false);
    check("a.b.example.local", false);
    // TLD with only 1 rule.
    check("biz", false);
    check("domain.biz", true);
    check("b.domain.biz", true);
    check("a.b.domain.biz", true);
    // TLD with some 2-level rules.
    check("com", false);
    check("example.com", true);
    check("b.example.com", true);
    check("a.b.example.com", true);
    check("uk.com", false);
    check("example.uk.com", true);
    check("b.example.uk.com", true);
    check("a.b.example.uk.com", true);
    check("test.ac", true);
    // TLD with only 1 (wildcard) rule.
    check("mm", false);
    check("c.mm", false);
    check("b.c.mm", true);
    check("a.b.c.mm", true);
    // More complex TLD.
    check("jp", false);
    check("test.jp", true);
    check("www.test.jp", true);
    check("ac.jp", false);
    check("test.ac.jp", true);
    check("www.test.ac.jp", true);
    check("kyoto.jp", false);
    check("test.kyoto.jp", true);
    check("ide.kyoto.jp", false);
    check("b.ide.kyoto.jp", true);
    check("a.b.ide.kyoto.jp", true);
    check("c.kobe.jp", false);
    check("b.c.kobe.jp", true);
    check("a.b.c.kobe.jp", true);
    check("city.kobe.jp", true);
    check("www.city.kobe.jp", true);
    // TLD with a wildcard rule and exceptions.
    check("ck", false);
    check("test.ck", false);
    check("b.test.ck", true);
    check("a.b.test.ck", true);
    check("www.ck", true);
    check("www.www.ck", true);
    // US K12.
    check("us", false);
    check("test.us", true);
    check("www.test.us", true);
    check("ak.us", false);
    check("test.ak.us", true);
    check("www.test.ak.us", true);
    check("k12.ak.us", false);
    check("test.k12.ak.us", true);
    check("www.test.k12.ak.us", true);
    // IDN labels.
    check("食狮.com.cn", true);
    check("食狮.公司.cn", true);
    check("www.食狮.公司.cn", true);
    check("shishi.公司.cn", true);
    check("公司.cn", false);
    check("食狮.中国", true);
    check("www.食狮.中国", true);
    check("shishi.中国", true);
    check("中国", false);
    // Same as above, but punycoded.
    check("xn--85x722f.com.cn", true);
    check("xn--85x722f.xn--55qx5d.cn", true);
    check("www.xn--85x722f.xn--55qx5d.cn", true);
    check("shishi.xn--55qx5d.cn", true);
    check("xn--55qx5d.cn", false);
    check("xn--85x722f.xn--fiqs8s", true);
    check("www.xn--85x722f.xn--fiqs8s", true);
    check("shishi.xn--fiqs8s", true);
    check("xn--fiqs8s", false);
}

fn with_example_tld() -> DomainValidator {
    let mut validator = standard_validator();
    validator.add_valid_tld("example").unwrap();
    validator
}

#[test]
fn error_kinds_of_the_suffix_table() {
    let v = with_example_tld();
    assert!(v.validate("example.com").is_ok());
    assert!(matches!(v.validate("COM"), Err(DomainValidationError::InvalidSuffix)));
    assert!(matches!(v.validate(".example.com"), Err(DomainValidationError::ContainsEmptyLabels)));
    assert!(matches!(v.validate("example"), Err(DomainValidationError::InvalidSuffix)));
    assert!(v.validate("example.example").is_ok());
    assert!(matches!(v.validate("biz"), Err(DomainValidationError::InvalidSuffix)));
    assert!(v.validate("domain.biz").is_ok());
    assert!(v.validate("b.c.mm").is_ok());
    assert!(matches!(v.validate("c.mm"), Err(DomainValidationError::InvalidSuffix)));
    assert!(v.validate("www.ck").is_ok());
    assert!(matches!(v.validate("test.ck"), Err(DomainValidationError::InvalidSuffix)));
    assert!(matches!(v.validate("k12.ak.us"), Err(DomainValidationError::InvalidSuffix)));
    assert!(v.validate("test.k12.ak.us").is_ok());
    assert!(v.validate("食狮.中国").is_ok());
    assert!(v.validate("xn--85x722f.xn--fiqs8s").is_ok());
}

#[test]
fn unlisted_tld_is_invalid_tld() {
    let v = standard_validator();
    assert!(matches!(v.validate("foo.invalidtld"), Err(DomainValidationError::InvalidTld)));
    assert!(matches!(v.validate("example.local"), Err(DomainValidationError::InvalidTld)));
}

#[test]
fn trailing_dot_gives_same_outcome() {
    let v = with_example_tld();
    for d in ["example.com", "COM", "c.mm", "www.ck", "foo.invalidtld", "k12.ak.us", "x.example"] {
        let plain = format!("{:?}", v.validate(d));
        let dotted = format!("{:?}", v.validate(&format!("{}.", d)));
        assert_eq!(plain, dotted, "domain {}", d);
    }
    assert!(v.validate("example.com.").is_ok());
}

#[test]
fn allowed_domain_overrides_everything() {
    let mut v = DomainValidator::default();
    // No TLDs and no suffix rules at all.
    assert!(matches!(v.validate("intranet.corp"), Err(DomainValidationError::InvalidTld)));
    v.add_blocked_domain("intranet.corp").unwrap();
    assert!(matches!(v.validate("intranet.corp"), Err(DomainValidationError::Blocked)));
    v.add_allowed_domain("Intranet.CORP").unwrap();
    assert!(v.validate("intranet.corp").is_ok());
    v.allowed_domains_only = true;
    assert!(v.validate("intranet.corp").is_ok());
    assert!(v.validate("localhost").is_ok() == false);
    v.add_allowed_domain("localhost").unwrap();
    assert!(v.validate("localhost").is_ok());
}

#[test]
fn blocked_and_allow_list_only() {
    let mut v = with_example_tld();
    v.add_blocked_domain("example.com").unwrap();
    assert!(matches!(v.validate("example.com"), Err(DomainValidationError::Blocked)));
    assert!(matches!(v.validate("EXAMPLE.com."), Err(DomainValidationError::Blocked)));
    assert!(v.validate("b.example.com").is_ok());
    v.allowed_domains_only = true;
    assert!(matches!(v.validate("b.example.com"), Err(DomainValidationError::Blocked)));
}

#[test]
fn validation_is_repeatable() {
    let v = with_example_tld();
    for d in ["example.com", "c.mm", "foo.invalidtld", ".com"] {
        let first = format!("{:?}", v.validate(d));
        let second = format!("{:?}", v.validate(d));
        assert_eq!(first, second);
    }
}

#[test]
fn suffix_rule_with_empty_label_is_refused() {
    let mut v = DomainValidator::default();
    assert!(matches!(v.add_valid_suffix("a..b"), Err(SuffixParseError::ContainsEmptyLabels)));
    assert!(matches!(v.add_valid_suffix("!.b"), Err(SuffixParseError::ContainsEmptyLabels)));
    assert!(matches!(v.add_valid_suffix(""), Err(SuffixParseError::ContainsEmptyLabels)));
    assert!(v.add_valid_suffix("!www.ck").is_ok());
}

#[test]
fn invalid_idna_is_reported() {
    let mut v = with_example_tld();
    assert!(matches!(v.validate("a\u{FFFF}.com"), Err(DomainValidationError::InvalidIdna(_))));
    assert!(v.add_allowed_domain("a\u{FFFF}.com").is_err());
    assert!(matches!(v.add_valid_suffix("a\u{FFFF}.com"), Err(SuffixParseError::InvalidIdna(_))));
}

#[test]
fn validate_ascii_judges_normalized_form() {
    let v = with_example_tld();
    assert!(v.validate_ascii("xn--85x722f.xn--fiqs8s").is_ok());
    assert!(matches!(v.validate_ascii("EXAMPLE.COM"), Err(DomainValidationError::InvalidTld)));
    assert!(matches!(v.validate_ascii("a..com"), Err(DomainValidationError::ContainsEmptyLabels)));
}

#[test]
fn suffix_check_on_labels() {
    let v = standard_validator();
    let labels = |s: &str| s.split('.').map(str::to_owned).collect::<Vec<String>>();
    assert!(v.validate_suffix(&labels("a.kobe.jp")) == false);
    assert!(v.validate_suffix(&labels("b.a.kobe.jp")));
    assert!(v.validate_suffix(&labels("city.kobe.jp")));
    assert!(v.validate_suffix(&labels("unknown")) == false);
    assert!(v.validate_suffix(&labels("x.unknown")));
}

#[test]
fn allowed_domain_with_final_full_stop_passes() {
    let mut v = DomainValidator::default();
    v.add_allowed_domain("intranet.corp\u{3002}").unwrap();
    v.add_blocked_domain("blocked.corp.").unwrap();
    assert!(v.validate("intranet.corp").is_ok());
    assert!(v.validate("intranet.corp.").is_ok());
    assert!(matches!(v.validate("blocked.corp"), Err(DomainValidationError::Blocked)));
}
