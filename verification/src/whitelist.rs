use vstd::prelude::*;
use vstd::string::StrSliceExecFns;
use crate::net::{
    IpAddress, IpNetwork, net_contains, parse_cidr, parse_ip, spec_net_contains, spec_parse_cidr,
    spec_parse_ip,
};

verus! {

/// One compiled access rule: a bare domain suffix, a literal address, or a
/// network block.
#[derive(Debug, Clone)]
pub enum Entry {
    DomainSuffix(String),
    Ip(IpAddress),
    Cidr(IpNetwork),
}

/// The mathematical shape of a rule: the suffix as its characters.
pub enum RuleV {
    DomainSuffix(Seq<char>),
    Ip(IpAddress),
    Cidr(IpNetwork),
}

impl View for Entry {
    type V = RuleV;

    open spec fn view(&self) -> RuleV {
        match self {
            Entry::DomainSuffix(s) => RuleV::DomainSuffix(s@),
            Entry::Ip(a) => RuleV::Ip(*a),
            Entry::Cidr(n) => RuleV::Cidr(*n),
        }
    }
}

/// A network rule carries a well-formed prefix length.
pub open spec fn rule_wf(r: RuleV) -> bool {
    match r {
        RuleV::Cidr(n) => n.wf(),
        _ => true,
    }
}

/// The ordered rule set the proxy consults; immutable once built.
#[derive(Debug, Clone)]
pub struct Whitelist {
    entries: Vec<Entry>,
}

impl View for Whitelist {
    type V = Seq<RuleV>;

    closed spec fn view(&self) -> Seq<RuleV> {
        Seq::new(self.entries@.len(), |i: int| self.entries@[i]@)
    }
}

/// What the host's whitespace trimming returns for the given characters;
/// the result depends on the characters alone.
pub uninterp spec fn trim_of(s: Seq<char>) -> Seq<char>;

/// What the host's lowercase conversion returns for the given characters;
/// the result depends on the characters alone.
pub uninterp spec fn lower_of(s: Seq<char>) -> Seq<char>;

/// Relies on str::trim: strips leading and trailing whitespace and the
/// result depends on the characters alone.
#[verifier::external_body]
fn trim_chars(s: &str) -> (r: &str)
    ensures
        r@ == trim_of(s@),
{
    s.trim()
}

/// Relies on str::to_lowercase: the result depends on the characters alone.
#[verifier::external_body]
fn lower_chars(s: &str) -> (r: String)
    ensures
        r@ == lower_of(s@),
{
    s.to_lowercase()
}

/// A leading "*." is stripped from a domain pattern; anything else is kept
/// whole.
pub open spec fn spec_strip_wildcard(t: Seq<char>) -> Seq<char> {
    if t.len() >= 2 && t[0] == '*' && t[1] == '.' {
        t.skip(2)
    } else {
        t
    }
}

/// How one already-normalized rule string compiles: a network when it has a
/// slash and parses as one, else a literal address when it parses as one,
/// else a domain suffix. Nothing is ever rejected.
pub open spec fn spec_compile(t: Seq<char>) -> RuleV {
    match (if t.contains('/') {
        spec_parse_cidr(t)
    } else {
        None
    }) {
        Some(n) => RuleV::Cidr(n),
        None => match spec_parse_ip(t) {
            Some(a) => RuleV::Ip(a),
            None => RuleV::DomainSuffix(spec_strip_wildcard(t)),
        },
    }
}

/// How one raw rule string compiles: trimmed, lowercased, then classified.
pub open spec fn spec_rule_of(v: Seq<char>) -> RuleV {
    spec_compile(lower_of(trim_of(v)))
}

/// The rule set compiled from a list of raw strings, in order.
pub open spec fn spec_rules_of(vs: Seq<Seq<char>>) -> Seq<RuleV> {
    Seq::new(vs.len(), |i: int| spec_rule_of(vs[i]))
}

/// A query domain matches a stored suffix when they are equal or when the
/// query ends with a dot followed by the suffix.
pub open spec fn spec_domain_match(d: Seq<char>, s: Seq<char>) -> bool {
    d == s || (d.len() > s.len() && d.skip(d.len() - s.len() - 1) == seq!['.'] + s)
}

/// Whether one rule allows the (already lowercased) domain.
pub open spec fn spec_rule_allows_domain(r: RuleV, d: Seq<char>) -> bool {
    match r {
        RuleV::DomainSuffix(s) => spec_domain_match(d, s),
        _ => false,
    }
}

/// Whether some rule allows the (already lowercased) domain.
pub open spec fn spec_allows_domain(rules: Seq<RuleV>, d: Seq<char>) -> bool {
    exists|i: int| 0 <= i < rules.len() && spec_rule_allows_domain(#[trigger] rules[i], d)
}

/// Whether one rule allows the address.
pub open spec fn spec_rule_allows_ip(r: RuleV, ip: IpAddress) -> bool {
    match r {
        RuleV::Ip(v) => v == ip,
        RuleV::Cidr(n) => spec_net_contains(n, ip),
        RuleV::DomainSuffix(_) => false,
    }
}

/// Whether some rule allows the address.
pub open spec fn spec_allows_ip(rules: Seq<RuleV>, ip: IpAddress) -> bool {
    exists|i: int| 0 <= i < rules.len() && spec_rule_allows_ip(#[trigger] rules[i], ip)
}

/// Whether the text contains a slash.
fn contains_slash(s: &str) -> (r: bool)
    ensures
        r == s@.contains('/'),
{
    let n = s.unicode_len();
    let mut i: usize = 0;
    while i < n
        invariant
            i <= n,
            n == s@.len(),
            forall|j: int| 0 <= j < i ==> s@[j] != '/',
        decreases n - i,
    {
        if s.get_char(i) == '/' {
            assert(s@[i as int] == '/');
            return true;
        }
        i += 1;
    }
    assert(!s@.contains('/')) by {
        if s@.contains('/') {
            let j = choose|j: int| 0 <= j < s@.len() && s@[j] == '/';
            assert(s@[j] != '/');
        }
    }
    false
}

/// Strips a leading "*." from a domain pattern.
fn strip_wildcard(t: String) -> (r: String)
    ensures
        r@ == spec_strip_wildcard(t@),
{
    let n = t.as_str().unicode_len();
    if n >= 2 && t.as_str().get_char(0) == '*' && t.as_str().get_char(1) == '.' {
        let sub = t.as_str().substring_char(2, n);
        assert(sub@ =~= t@.skip(2));
        sub.to_owned()
    } else {
        t
    }
}

/// Compiles one already-normalized rule string.
fn compile_entry(t: String) -> (e: Entry)
    ensures
        e@ == spec_compile(t@),
        rule_wf(e@),
{
    if contains_slash(t.as_str()) {
        if let Some(net) = parse_cidr(t.as_str()) {
            return Entry::Cidr(net);
        }
    }
    if let Some(a) = parse_ip(t.as_str()) {
        return Entry::Ip(a);
    }
    Entry::DomainSuffix(strip_wildcard(t))
}

/// Compares the characters of `s` against the characters of `d` starting at
/// `off`, which must reach exactly to the end of `d`.
fn chars_eq_from(d: &str, s: &str, off: usize) -> (r: bool)
    requires
        off + s@.len() == d@.len(),
    ensures
        r == (d@.skip(off as int) == s@),
{
    let n = s.unicode_len();
    let nd = d.unicode_len();
    let mut i: usize = 0;
    while i < n
        invariant
            i <= n,
            n == s@.len(),
            nd == d@.len(),
            off + n == d@.len(),
            forall|j: int| 0 <= j < i ==> d@[off + j] == s@[j],
        decreases n - i,
    {
        if d.get_char(off + i) != s.get_char(i) {
            assert(d@.skip(off as int)[i as int] == d@[off + i]);
            return false;
        }
        i += 1;
    }
    assert(d@.skip(off as int) =~= s@);
    true
}

/// Decides `spec_domain_match` on already-lowercased text.
fn domain_match(d: &str, s: &str) -> (r: bool)
    ensures
        r == spec_domain_match(d@, s@),
{
    let nd = d.unicode_len();
    let ns = s.unicode_len();
    if nd == ns {
        let eq = chars_eq_from(d, s, 0);
        proof {
            assert(d@.skip(0) =~= d@);
        }
        eq
    } else if nd > ns {
        let k = nd - ns - 1;
        if d.get_char(k) == '.' {
            let eq = chars_eq_from(d, s, nd - ns);
            proof {
                if eq {
                    assert(d@.skip(k as int) =~= seq!['.'] + s@);
                } else {
                    if d@.skip(k as int) == seq!['.'] + s@ {
                        assert forall|j: int| 0 <= j < s@.len() implies d@.skip(
                            (nd - ns) as int,
                        )[j] == s@[j] by {
                            assert(d@.skip(k as int)[j + 1] == (seq!['.'] + s@)[j + 1]);
                        }
                        assert(d@.skip((nd - ns) as int) =~= s@);
                    }
                }
            }
            eq
        } else {
            proof {
                if d@.skip(k as int) == seq!['.'] + s@ {
                    assert(d@.skip(k as int)[0] == (seq!['.'] + s@)[0]);
                }
            }
            false
        }
    } else {
        false
    }
}

impl Whitelist {
    /// Every network rule carries a well-formed prefix.
    pub open spec fn wf(self) -> bool {
        forall|i: int| 0 <= i < self@.len() ==> rule_wf(#[trigger] self@[i])
    }

    /// Compiles raw rule strings in order; nothing is ever rejected, an
    /// entry that parses as neither a network nor an address becomes a
    /// domain suffix.
    pub fn from_strings(values: Vec<String>) -> (r: Self)
        ensures
            r@ == spec_rules_of(values.deep_view()),
            r.wf(),
    {
        let n = values.len();
        let mut entries: Vec<Entry> = Vec::new();
        let mut k: usize = 0;
        while k < n
            invariant
                k <= n,
                n == values@.len(),
                entries@.len() == k,
                forall|j: int|
                    0 <= j < k ==> #[trigger] entries@[j]@ == spec_rule_of(values@[j]@),
                forall|j: int| 0 <= j < k ==> rule_wf(#[trigger] entries@[j]@),
            decreases n - k,
        {
            let v = &values[k];
            let t = lower_chars(trim_chars(v.as_str()));
            let e = compile_entry(t);
            entries.push(e);
            k += 1;
        }
        let r = Whitelist { entries };
        proof {
            assert(r@ =~= spec_rules_of(values.deep_view()));
        }
        r
    }

    /// Whether the rules allow the domain; matching is case-insensitive and
    /// only domain-suffix rules can match a domain query.
    pub fn allows_domain(&self, domain: &str) -> (r: bool)
        ensures
            r == spec_allows_domain(self@, lower_of(domain@)),
    {
        let d = lower_chars(domain);
        let n = self.entries.len();
        let mut i: usize = 0;
        while i < n
            invariant
                i <= n,
                n == self.entries@.len(),
                d@ == lower_of(domain@),
                forall|j: int|
                    0 <= j < i ==> !spec_rule_allows_domain(#[trigger] self@[j], d@),
            decreases n - i,
        {
            match &self.entries[i] {
                Entry::DomainSuffix(s) => {
                    if domain_match(d.as_str(), s.as_str()) {
                        assert(spec_rule_allows_domain(self@[i as int], d@));
                        return true;
                    }
                },
                _ => {},
            }
            i += 1;
        }
        false
    }

    /// Whether the rules allow the address; only literal-address and network
    /// rules can match an address query.
    pub fn allows_ip(&self, ip: &IpAddress) -> (r: bool)
        ensures
            r == spec_allows_ip(self@, *ip),
    {
        let n = self.entries.len();
        let mut i: usize = 0;
        while i < n
            invariant
                i <= n,
                n == self.entries@.len(),
                forall|j: int| 0 <= j < i ==> !spec_rule_allows_ip(#[trigger] self@[j], *ip),
            decreases n - i,
        {
            match &self.entries[i] {
                Entry::Ip(v) => {
                    if *v == *ip {
                        assert(spec_rule_allows_ip(self@[i as int], *ip));
                        return true;
                    }
                },
                Entry::Cidr(net) => {
                    if net_contains(net, ip) {
                        assert(spec_rule_allows_ip(self@[i as int], *ip));
                        return true;
                    }
                },
                _ => {},
            }
            i += 1;
        }
        false
    }

    /// Whether the rules allow at least one of the addresses.
    pub fn allows_any_ip(&self, ips: &[IpAddress]) -> (r: bool)
        ensures
            r == exists|j: int| 0 <= j < ips@.len() && spec_allows_ip(self@, #[trigger] ips@[j]),
    {
        let n = ips.len();
        let mut i: usize = 0;
        while i < n
            invariant
                i <= n,
                n == ips@.len(),
                forall|j: int| 0 <= j < i ==> !spec_allows_ip(self@, #[trigger] ips@[j]),
            decreases n - i,
        {
            let ip = ips[i];
            if self.allows_ip(&ip) {
                return true;
            }
            i += 1;
        }
        false
    }
}

/// Law: a rule list holding the suffix compiled from a domain pattern allows
/// the pattern itself, whether or not the pattern began with "*.".
pub proof fn lemma_pattern_allows_itself(rules: Seq<RuleV>, i: int, t: Seq<char>)
    requires
        0 <= i < rules.len(),
        rules[i] == RuleV::DomainSuffix(spec_strip_wildcard(t)),
    ensures
        spec_allows_domain(rules, t),
{
    let s = spec_strip_wildcard(t);
    if t.len() >= 2 && t[0] == '*' && t[1] == '.' {
        assert(t.skip((t.len() - s.len() - 1) as int) =~= seq!['.'] + s);
        assert(spec_domain_match(t, s));
    } else {
        assert(spec_domain_match(t, s));
    }
    assert(spec_rule_allows_domain(rules[i], t));
}

/// Law: any dot-separated subdomain of a compiled domain pattern is allowed,
/// whether or not the pattern began with "*.".
pub proof fn lemma_pattern_allows_subdomain(rules: Seq<RuleV>, i: int, t: Seq<char>, sub: Seq<char>)
    requires
        0 <= i < rules.len(),
        rules[i] == RuleV::DomainSuffix(spec_strip_wildcard(t)),
    ensures
        spec_allows_domain(rules, sub + seq!['.'] + t),
{
    let s = spec_strip_wildcard(t);
    let d = sub + seq!['.'] + t;
    assert(d.len() > s.len());
    assert(d.skip((d.len() - s.len() - 1) as int) =~= seq!['.'] + s);
    assert(spec_domain_match(d, s));
    assert(spec_rule_allows_domain(rules[i], d));
}

/// Law: suffix matching is dot-bounded. A query longer than the stored
/// suffix matches only when the suffix sits at the end of the query right
/// after a dot; a bare substring occurrence never matches.
pub proof fn lemma_match_dot_bounded(d: Seq<char>, s: Seq<char>)
    requires
        spec_domain_match(d, s),
        d.len() > s.len(),
    ensures
        d[d.len() - s.len() - 1] == '.',
        d.skip(d.len() - s.len()) == s,
{
    let k = d.len() - s.len() - 1;
    assert(d.skip(k as int) == seq!['.'] + s);
    assert(d[k as int] == d.skip(k as int)[0]);
    assert forall|j: int| 0 <= j < s.len() implies d.skip(d.len() - s.len())[j] == s[j] by {
        assert(d.skip(k as int)[j + 1] == (seq!['.'] + s)[j + 1]);
    }
    assert(d.skip(d.len() - s.len()) =~= s);
}

/// Law: extending a stored suffix with further trailing characters is
/// denied, except in the degenerate case where a dot and the suffix itself
/// reappear at the end of the extended text.
pub proof fn lemma_extension_denied(rules: Seq<RuleV>, s: Seq<char>, e: Seq<char>)
    requires
        forall|i: int| 0 <= i < rules.len() ==> #[trigger] rules[i] == RuleV::DomainSuffix(s),
        e.len() > 0,
        !(seq!['.'] + s).is_suffix_of(s + e),
    ensures
        !spec_allows_domain(rules, s + e),
{
    let d = s + e;
    assert(d.len() > s.len());
    assert(!spec_domain_match(d, s)) by {
        if spec_domain_match(d, s) {
            lemma_match_dot_bounded(d, s);
            assert(d.skip((d.len() - s.len() - 1) as int) == seq!['.'] + s);
            assert((seq!['.'] + s).is_suffix_of(d));
        }
    }
}

/// Law: the empty rule list denies every domain and every address.
pub proof fn lemma_empty_denies(rules: Seq<RuleV>)
    requires
        rules.len() == 0,
    ensures
        forall|d: Seq<char>| !spec_allows_domain(rules, d),
        forall|ip: IpAddress| !spec_allows_ip(rules, ip),
{
}

/// Law: compiling the same rule strings twice yields rule sets that give the
/// same answer for every domain query and every address query.
pub proof fn lemma_rebuild_deterministic(w1: &Whitelist, w2: &Whitelist, vs: Seq<Seq<char>>)
    requires
        w1@ == spec_rules_of(vs),
        w2@ == spec_rules_of(vs),
    ensures
        forall|d: Seq<char>| spec_allows_domain(w1@, d) == spec_allows_domain(w2@, d),
        forall|ip: IpAddress| spec_allows_ip(w1@, ip) == spec_allows_ip(w2@, ip),
{
}

} // verus!
