use crate::labels::{lemma_split_labels_nonempty, split_labels, split_on_dots, string_views};
use vstd::prelude::*;

verus! {

/// What `idna::domain_to_ascii` makes of a domain name: its ASCII (punycode) form, or
/// `None` where IDNA processing reports errors.
pub uninterp spec fn idna_ascii(domain: Seq<char>) -> Option<Seq<char>>;

#[verifier::external_type_specification]
#[verifier::external_body]
pub struct ExIdnaErrors(idna::Errors);

/// Relies on `idna::domain_to_ascii` (UTS #46 processing with the non-strict
/// configuration): the result depends on the input string alone.
#[verifier::external_body]
fn domain_to_ascii(domain: &str) -> (r: Result<String, idna::Errors>)
    ensures
        match r {
            Ok(s) => idna_ascii(domain@) == Some(s@),
            Err(_) => idna_ascii(domain@) is None,
        },
{
    idna::domain_to_ascii(domain)
}

/// One rule of the public-suffix list.
pub struct SuffixRule {
    /// Labels to match, some of which may be `*`.
    pub labels: Vec<String>,
    /// Whether this is an exception rule.
    pub exception: bool,
}

impl SuffixRule {
    pub open spec fn label_views(&self) -> Seq<Seq<char>> {
        string_views(self.labels@)
    }
}

/// Errors produced by `DomainValidator::add_valid_suffix`.
#[derive(Debug)]
pub enum SuffixParseError {
    InvalidIdna(idna::Errors),
    ContainsEmptyLabels,
}

/// Errors produced by `DomainValidator::validate`.
#[derive(Debug)]
pub enum DomainValidationError {
    InvalidIdna(idna::Errors),
    Blocked,
    ContainsEmptyLabels,
    InvalidTld,
    InvalidSuffix,
}

/// The wildcard label `*`.
pub open spec fn is_wildcard(label: Seq<char>) -> bool {
    label == seq!['*']
}

/// A rule matches a domain when the domain has at least as many labels, and each of
/// its last labels equals the rule's label at the same place or that label is `*`.
pub open spec fn rule_matches(rule: Seq<Seq<char>>, domain: Seq<Seq<char>>) -> bool {
    &&& rule.len() <= domain.len()
    &&& forall|j: int|
        0 <= j < rule.len() ==> is_wildcard(#[trigger] rule[j]) || domain[domain.len() - rule.len()
            + j] == rule[j]
}

/// Some exception rule among `rules` matches the domain.
pub open spec fn exception_matches(rules: Seq<SuffixRule>, domain: Seq<Seq<char>>) -> bool {
    exists|i: int|
        0 <= i < rules.len() && (#[trigger] rules[i]).exception && rule_matches(
            rules[i].label_views(),
            domain,
        )
}

/// The number of labels of the longest non-exception rule among `rules` that matches
/// the domain, if any matches.
pub open spec fn longest_match(rules: Seq<SuffixRule>, domain: Seq<Seq<char>>) -> Option<nat>
    decreases rules.len(),
{
    if rules.len() == 0 {
        None
    } else {
        let prev = longest_match(rules.drop_last(), domain);
        let rule = rules.last();
        if !rule.exception && rule_matches(rule.label_views(), domain) {
            if prev is Some && prev->0 >= rule.labels@.len() {
                prev
            } else {
                Some(rule.labels@.len())
            }
        } else {
            prev
        }
    }
}

/// A domain is registrable under `rules` when an exception rule matches it, or when it
/// has more labels than the longest matching rule (than the implicit rule `*` where no
/// rule matches).
pub open spec fn suffix_registrable(rules: Seq<SuffixRule>, domain: Seq<Seq<char>>) -> bool {
    exception_matches(rules, domain) || match longest_match(rules, domain) {
        Some(n) => domain.len() > n,
        None => domain.len() > 1,
    }
}

/// Drops one trailing `.`, if present.
pub open spec fn strip_trailing_dot(s: Seq<char>) -> Seq<char> {
    if s.len() > 0 && s.last() == '.' {
        s.drop_last()
    } else {
        s
    }
}

/// Some label is empty.
pub open spec fn has_empty_label(labels: Seq<Seq<char>>) -> bool {
    exists|i: int| 0 <= i < labels.len() && (#[trigger] labels[i]).len() == 0
}

/// The labels of a suffix rule as written, with the exception mark `!` removed.
pub open spec fn rule_body(rule: Seq<char>) -> Seq<char> {
    if rule.len() > 0 && rule[0] == '!' {
        rule.drop_first()
    } else {
        rule
    }
}

/// Validates domains based on some configuration.
pub struct DomainValidator {
    /// Exact domains to allow.
    allowed_domains: Vec<String>,
    /// Whether to treat anything not in the allow-list as blocked.
    pub allowed_domains_only: bool,
    /// Exact domains to block.
    blocked_domains: Vec<String>,
    /// Allowed TLDs.
    valid_tlds: Vec<String>,
    /// Rules for validating domain suffixes.
    valid_suffixes: Vec<SuffixRule>,
}

/// Whether `list` holds a string equal to `s`.
fn list_contains(list: &Vec<String>, s: &String) -> (r: bool)
    ensures
        r == string_views(list@).contains(s@),
{
    let mut i: usize = 0;
    while i < list.len()
        invariant
            i <= list@.len(),
            forall|j: int| 0 <= j < i ==> list@[j]@ != s@,
        decreases list@.len() - i,
    {
        if list[i] == *s {
            assert(string_views(list@)[i as int] == s@);
            return true;
        }
        i = i + 1;
    }
    proof {
        if string_views(list@).contains(s@) {
            let j = choose|j: int| 0 <= j < list@.len() && string_views(list@)[j] == s@;
            assert(list@[j]@ == s@);
        }
    }
    false
}

/// `s` without one trailing `.`, if present.
fn without_trailing_dot(s: &str) -> (r: String)
    ensures
        r@ == strip_trailing_dot(s@),
{
    let n = s.unicode_len();
    if n > 0 && s.get_char(n - 1) == '.' {
        let t = s.substring_char(0, n - 1);
        assert(t@ =~= s@.drop_last());
        t.to_owned()
    } else {
        s.to_owned()
    }
}

fn any_empty_label(labels: &Vec<String>) -> (r: bool)
    ensures
        r == has_empty_label(string_views(labels@)),
{
    let mut i: usize = 0;
    while i < labels.len()
        invariant
            i <= labels@.len(),
            forall|j: int| 0 <= j < i ==> (#[trigger] string_views(labels@)[j]).len() > 0,
        decreases labels@.len() - i,
    {
        if labels[i].as_str().unicode_len() == 0 {
            assert(string_views(labels@)[i as int].len() == 0);
            return true;
        }
        i = i + 1;
    }
    false
}

fn label_is_wildcard(label: &String) -> (r: bool)
    ensures
        r == is_wildcard(label@),
{
    let s = label.as_str();
    if s.unicode_len() == 1 {
        let c = s.get_char(0);
        assert(c == '*' ==> s@ =~= seq!['*']);
        c == '*'
    } else {
        false
    }
}

fn rule_matches_labels(rule: &Vec<String>, domain: &Vec<String>) -> (r: bool)
    ensures
        r == rule_matches(string_views(rule@), string_views(domain@)),
{
    let n = rule.len();
    let m = domain.len();
    if n > m {
        return false;
    }
    let skip = m - n;
    let mut j: usize = 0;
    while j < n
        invariant
            n == rule@.len(),
            m == domain@.len(),
            skip == m - n,
            j <= n,
            forall|k: int|
                0 <= k < j ==> is_wildcard(#[trigger] string_views(rule@)[k]) || string_views(
                    domain@,
                )[skip + k] == string_views(rule@)[k],
        decreases n - j,
    {
        if !label_is_wildcard(&rule[j]) && rule[j] != domain[skip + j] {
            assert(!(is_wildcard(string_views(rule@)[j as int]) || string_views(domain@)[skip
                + j] == string_views(rule@)[j as int]));
            return false;
        }
        j = j + 1;
    }
    true
}

impl Default for DomainValidator {
    fn default() -> (r: DomainValidator)
        ensures
            r.allowed_view() == Seq::<Seq<char>>::empty(),
            r.blocked_view() == Seq::<Seq<char>>::empty(),
            r.tld_view() == Seq::<Seq<char>>::empty(),
            r.suffix_rules() == Seq::<SuffixRule>::empty(),
            !r.allowed_only(),
    {
        let r = DomainValidator {
            allowed_domains: Vec::new(),
            allowed_domains_only: false,
            blocked_domains: Vec::new(),
            valid_tlds: Vec::new(),
            valid_suffixes: Vec::new(),
        };
        assert(r.allowed_view() =~= Seq::<Seq<char>>::empty());
        assert(r.blocked_view() =~= Seq::<Seq<char>>::empty());
        assert(r.tld_view() =~= Seq::<Seq<char>>::empty());
        r
    }
}

impl DomainValidator {
    /// Whether only the allowed domains pass.
    pub closed spec fn allowed_only(&self) -> bool {
        self.allowed_domains_only
    }

    /// The allowed domains, in the order they were added.
    pub closed spec fn allowed_view(&self) -> Seq<Seq<char>> {
        string_views(self.allowed_domains@)
    }

    /// The blocked domains, in the order they were added.
    pub closed spec fn blocked_view(&self) -> Seq<Seq<char>> {
        string_views(self.blocked_domains@)
    }

    /// The valid top-level domains, in the order they were added.
    pub closed spec fn tld_view(&self) -> Seq<Seq<char>> {
        string_views(self.valid_tlds@)
    }

    /// The suffix rules, in the order they were added.
    pub closed spec fn suffix_rules(&self) -> Seq<SuffixRule> {
        self.valid_suffixes@
    }

    /// The outcome of validating a domain already in ASCII form.
    pub open spec fn ascii_verdict(&self, domain: Seq<char>) -> Result<(), DomainValidationError> {
        let d = strip_trailing_dot(domain);
        let labels = split_labels(d);
        if self.allowed_view().contains(d) {
            Ok(())
        } else if self.allowed_only() || self.blocked_view().contains(d) {
            Err(DomainValidationError::Blocked)
        } else if has_empty_label(labels) {
            Err(DomainValidationError::ContainsEmptyLabels)
        } else if !self.tld_view().contains(labels.last()) {
            Err(DomainValidationError::InvalidTld)
        } else if !suffix_registrable(self.suffix_rules(), labels) {
            Err(DomainValidationError::InvalidSuffix)
        } else {
            Ok(())
        }
    }

    /// Add a domain to the set of allowed domains.
    pub fn add_allowed_domain(&mut self, domain: &str) -> (r: Result<(), idna::Errors>)
        ensures
            r is Ok <==> idna_ascii(domain@) is Some,
            final(self).allowed_view() == match idna_ascii(domain@) {
                Some(a) => old(self).allowed_view().push(strip_trailing_dot(a)),
                None => old(self).allowed_view(),
            },
            final(self).blocked_view() == old(self).blocked_view(),
            final(self).tld_view() == old(self).tld_view(),
            final(self).suffix_rules() == old(self).suffix_rules(),
            final(self).allowed_only() == old(self).allowed_only(),
    {
        let domain = match domain_to_ascii(domain) {
            Ok(d) => d,
            Err(e) => return Err(e),
        };
        let domain = without_trailing_dot(domain.as_str());
        let ghost before = self.allowed_domains@;
        self.allowed_domains.push(domain);
        assert(string_views(self.allowed_domains@) =~= string_views(before).push(domain@));
        Ok(())
    }

    /// Add a domain to the set of blocked domains.
    pub fn add_blocked_domain(&mut self, domain: &str) -> (r: Result<(), idna::Errors>)
        ensures
            r is Ok <==> idna_ascii(domain@) is Some,
            final(self).blocked_view() == match idna_ascii(domain@) {
                Some(a) => old(self).blocked_view().push(strip_trailing_dot(a)),
                None => old(self).blocked_view(),
            },
            final(self).allowed_view() == old(self).allowed_view(),
            final(self).tld_view() == old(self).tld_view(),
            final(self).suffix_rules() == old(self).suffix_rules(),
            final(self).allowed_only() == old(self).allowed_only(),
    {
        let domain = match domain_to_ascii(domain) {
            Ok(d) => d,
            Err(e) => return Err(e),
        };
        let domain = without_trailing_dot(domain.as_str());
        let ghost before = self.blocked_domains@;
        self.blocked_domains.push(domain);
        assert(string_views(self.blocked_domains@) =~= string_views(before).push(domain@));
        Ok(())
    }

    /// Add a TLD to the set of valid TLDs.
    pub fn add_valid_tld(&mut self, tld: &str) -> (r: Result<(), idna::Errors>)
        ensures
            r is Ok <==> idna_ascii(tld@) is Some,
            final(self).tld_view() == match idna_ascii(tld@) {
                Some(a) => old(self).tld_view().push(a),
                None => old(self).tld_view(),
            },
            final(self).allowed_view() == old(self).allowed_view(),
            final(self).blocked_view() == old(self).blocked_view(),
            final(self).suffix_rules() == old(self).suffix_rules(),
            final(self).allowed_only() == old(self).allowed_only(),
    {
        let tld = match domain_to_ascii(tld) {
            Ok(d) => d,
            Err(e) => return Err(e),
        };
        let ghost before = self.valid_tlds@;
        self.valid_tlds.push(tld);
        assert(string_views(self.valid_tlds@) =~= string_views(before).push(tld@));
        Ok(())
    }
    /// Add a domain suffix rule to the list of valid suffixes. A leading `!` marks an
    /// exception rule.
    pub fn add_valid_suffix(&mut self, rule: &str) -> (r: Result<(), SuffixParseError>)
        ensures
            match idna_ascii(rule_body(rule@)) {
                None => r matches Err(SuffixParseError::InvalidIdna(_)),
                Some(a) => if has_empty_label(split_labels(a)) {
                    r matches Err(SuffixParseError::ContainsEmptyLabels)
                } else {
                    r is Ok
                },
            },
            r is Ok ==> {
                &&& final(self).suffix_rules().len() == old(self).suffix_rules().len() + 1
                &&& final(self).suffix_rules().drop_last() == old(self).suffix_rules()
                &&& final(self).suffix_rules().last().label_views() == split_labels(
                    idna_ascii(rule_body(rule@))->0,
                )
                &&& final(self).suffix_rules().last().exception == (rule@.len() > 0 && rule@[0]
                    == '!')
            },
            r is Err ==> final(self).suffix_rules() == old(self).suffix_rules(),
            final(self).allowed_view() == old(self).allowed_view(),
            final(self).blocked_view() == old(self).blocked_view(),
            final(self).tld_view() == old(self).tld_view(),
            final(self).allowed_only() == old(self).allowed_only(),
    {
        let n = rule.unicode_len();
        let exception = n > 0 && rule.get_char(0) == '!';
        let body = if exception {
            rule.substring_char(1, n)
        } else {
            rule
        };
        assert(body@ =~= rule_body(rule@));
        let ascii = match domain_to_ascii(body) {
            Ok(a) => a,
            Err(e) => return Err(SuffixParseError::InvalidIdna(e)),
        };
        let labels = split_on_dots(ascii.as_str());
        if any_empty_label(&labels) {
            return Err(SuffixParseError::ContainsEmptyLabels);
        }
        let ghost before = self.valid_suffixes@;
        self.valid_suffixes.push(SuffixRule { labels, exception });
        assert(self.valid_suffixes@.drop_last() =~= before);
        Ok(())
    }

    /// Validate a domain: normalise it to its ASCII form, then judge that form.
    pub fn validate(&self, domain: &str) -> (r: Result<(), DomainValidationError>)
        ensures
            match idna_ascii(domain@) {
                None => r matches Err(DomainValidationError::InvalidIdna(_)),
                Some(a) => r == self.ascii_verdict(a),
            },
    {
        let ascii = match domain_to_ascii(domain) {
            Ok(a) => a,
            Err(e) => return Err(DomainValidationError::InvalidIdna(e)),
        };
        self.validate_ascii(ascii.as_str())
    }

    /// Validate a domain that is already in ASCII (punycode) form.
    pub fn validate_ascii(&self, domain: &str) -> (r: Result<(), DomainValidationError>)
        ensures
            r == self.ascii_verdict(domain@),
    {
        let d = without_trailing_dot(domain);

        // Short-circuit for allow/block-lists.
        if list_contains(&self.allowed_domains, &d) {
            return Ok(());
        }
        if self.allowed_domains_only || list_contains(&self.blocked_domains, &d) {
            return Err(DomainValidationError::Blocked);
        }

        // Separate into labels, and don't allow empty labels.
        let labels = split_on_dots(d.as_str());
        if any_empty_label(&labels) {
            return Err(DomainValidationError::ContainsEmptyLabels);
        }
        proof {
            lemma_split_labels_nonempty(d@);
        }

        // Verify against the TLD list and the suffix list.
        if !list_contains(&self.valid_tlds, &labels[labels.len() - 1]) {
            return Err(DomainValidationError::InvalidTld);
        }
        if !self.validate_suffix(&labels) {
            return Err(DomainValidationError::InvalidSuffix);
        }
        Ok(())
    }

    /// Validate a domain, split into labels, against the suffix rules.
    pub fn validate_suffix(&self, domain: &Vec<String>) -> (r: bool)
        ensures
            r == suffix_registrable(self.suffix_rules(), string_views(domain@)),
    {
        let ghost d = string_views(domain@);
        let ghost rules = self.valid_suffixes@;
        // The length of the longest match so far; never that of an exception rule.
        let mut matched: Option<usize> = None;
        let mut k: usize = 0;
        while k < self.valid_suffixes.len()
            invariant
                rules == self.valid_suffixes@,
                d == string_views(domain@),
                k <= rules.len(),
                forall|i: int|
                    0 <= i < k ==> !((#[trigger] rules[i]).exception && rule_matches(
                        rules[i].label_views(),
                        d,
                    )),
                match matched {
                    Some(n) => longest_match(rules.take(k as int), d) == Some(n as nat),
                    None => longest_match(rules.take(k as int), d) is None,
                },
            decreases rules.len() - k,
        {
            let rule = &self.valid_suffixes[k];
            proof {
                assert(rules.take(k + 1).drop_last() =~= rules.take(k as int));
                assert(rules.take(k + 1).last() == rules[k as int]);
            }
            if rule_matches_labels(&rule.labels, domain) {
                // Exception rules match an exact registrable domain.
                if rule.exception {
                    return true;
                }
                let len = rule.labels.len();
                matched = match matched {
                    Some(n) => if n >= len {
                        Some(n)
                    } else {
                        Some(len)
                    },
                    None => Some(len),
                };
            }
            k = k + 1;
        }
        proof {
            assert(rules.take(rules.len() as int) =~= rules);
        }
        // Need at least one more label below the matched suffix; where nothing
        // matched, the implicit rule is `*`.
        match matched {
            Some(n) => domain.len() > n,
            None => domain.len() > 1,
        }
    }
}

/// Appending one `.` to an ASCII domain that does not already end in `.` does not
/// change the outcome of validation.
pub proof fn lemma_trailing_dot_ignored(v: &DomainValidator, domain: Seq<char>)
    requires
        !(domain.len() > 0 && domain.last() == '.'),
    ensures
        v.ascii_verdict(domain.push('.')) == v.ascii_verdict(domain),
{
    assert(domain.push('.').drop_last() =~= domain);
}

/// Once a domain has been added to the allow-list, validating it succeeds, whatever the
/// block-list, the flag, the TLDs and the suffix rules hold.
pub proof fn lemma_allowed_domain_passes(
    before: &DomainValidator,
    after: &DomainValidator,
    domain: Seq<char>,
)
    requires
        idna_ascii(domain) is Some,
        after.allowed_view() == before.allowed_view().push(
            strip_trailing_dot(idna_ascii(domain)->0),
        ),
    ensures
        after.ascii_verdict(idna_ascii(domain)->0) == Ok::<(), DomainValidationError>(()),
{
    let a = strip_trailing_dot(idna_ascii(domain)->0);
    assert(after.allowed_view()[before.allowed_view().len() as int] == a);
}

/// Validation is a function of the configuration and the domain alone: validators with
/// the same lists and flag give the same outcome for every domain.
pub proof fn lemma_validation_deterministic(
    v1: &DomainValidator,
    v2: &DomainValidator,
    domain: Seq<char>,
)
    requires
        v1.allowed_view() == v2.allowed_view(),
        v1.blocked_view() == v2.blocked_view(),
        v1.tld_view() == v2.tld_view(),
        v1.suffix_rules() == v2.suffix_rules(),
        v1.allowed_only() == v2.allowed_only(),
    ensures
        v1.ascii_verdict(domain) == v2.ascii_verdict(domain),
{
}

} // verus!
