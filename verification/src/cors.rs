//! The cross-origin rules of a bucket: their form in a request, their form
//! in the bucket, and what they allow.
use crate::error::{Error, ErrorView};
use crate::text::str_eq;
use vstd::prelude::*;

verus! {

/// A text as an XML element holds it.
#[derive(Debug, Clone, PartialEq, Eq, PartialOrd, Ord)]
pub struct Value(pub String);

/// A number as an XML element holds it.
#[derive(Debug, Clone, Copy, PartialEq, Eq, PartialOrd, Ord)]
pub struct IntValue(pub i64);

/// The cross-origin rules of a bucket as a request gives them.
#[derive(Debug, Clone, PartialEq, Eq, PartialOrd, Ord)]
pub struct CorsConfiguration {
    pub cors_rules: Vec<CorsRule>,
}

/// One cross-origin rule as a request gives it.
#[derive(Debug, Clone, PartialEq, Eq, PartialOrd, Ord)]
pub struct CorsRule {
    pub id: Option<Value>,
    pub max_age_seconds: Option<IntValue>,
    pub allowed_origins: Vec<Value>,
    pub allowed_methods: Vec<Value>,
    pub allowed_headers: Vec<Value>,
    pub expose_headers: Vec<Value>,
}

/// A method that a rule allows, as an XML element holds it.
#[derive(Debug, Clone, PartialEq, Eq, PartialOrd, Ord)]
pub struct AllowedMethod {
    pub allowed_method: Value,
}

/// A header that a rule allows, as an XML element holds it.
#[derive(Debug, Clone, PartialEq, Eq, PartialOrd, Ord)]
pub struct AllowedHeader {
    pub allowed_header: Value,
}

/// A header that a rule exposes, as an XML element holds it.
#[derive(Debug, Clone, PartialEq, Eq, PartialOrd, Ord)]
pub struct ExposeHeader {
    pub expose_header: Value,
}

/// One cross-origin rule as the bucket keeps it.
#[derive(Debug, Clone, PartialEq, Eq)]
pub struct GarageCorsRule {
    pub id: Option<String>,
    pub max_age_seconds: Option<u64>,
    pub allow_origins: Vec<String>,
    pub allow_methods: Vec<String>,
    pub allow_headers: Vec<String>,
    pub expose_headers: Vec<String>,
}

/// The mathematical value of a [`CorsRule`].
pub struct CorsRuleView {
    pub id: Option<Seq<char>>,
    pub max_age_seconds: Option<i64>,
    pub allowed_origins: Seq<Seq<char>>,
    pub allowed_methods: Seq<Seq<char>>,
    pub allowed_headers: Seq<Seq<char>>,
    pub expose_headers: Seq<Seq<char>>,
}

/// The mathematical value of a [`GarageCorsRule`].
pub struct GarageCorsRuleView {
    pub id: Option<Seq<char>>,
    pub max_age_seconds: Option<u64>,
    pub allow_origins: Seq<Seq<char>>,
    pub allow_methods: Seq<Seq<char>>,
    pub allow_headers: Seq<Seq<char>>,
    pub expose_headers: Seq<Seq<char>>,
}

/// The characters of each text of a list.
pub open spec fn values_view(s: Seq<Value>) -> Seq<Seq<char>> {
    s.map_values(|v: Value| v.0@)
}

/// The characters of each string of a list.
pub open spec fn strings_view(s: Seq<String>) -> Seq<Seq<char>> {
    s.map_values(|v: String| v@)
}

impl View for CorsRule {
    type V = CorsRuleView;

    open spec fn view(&self) -> CorsRuleView {
        CorsRuleView {
            id: match self.id {
                Some(v) => Some(v.0@),
                None => None,
            },
            max_age_seconds: match self.max_age_seconds {
                Some(v) => Some(v.0),
                None => None,
            },
            allowed_origins: values_view(self.allowed_origins@),
            allowed_methods: values_view(self.allowed_methods@),
            allowed_headers: values_view(self.allowed_headers@),
            expose_headers: values_view(self.expose_headers@),
        }
    }
}

impl View for GarageCorsRule {
    type V = GarageCorsRuleView;

    open spec fn view(&self) -> GarageCorsRuleView {
        GarageCorsRuleView {
            id: match self.id {
                Some(v) => Some(v@),
                None => None,
            },
            max_age_seconds: self.max_age_seconds,
            allow_origins: strings_view(self.allow_origins@),
            allow_methods: strings_view(self.allow_methods@),
            allow_headers: strings_view(self.allow_headers@),
            expose_headers: strings_view(self.expose_headers@),
        }
    }
}

/// The values of a list of rules.
pub open spec fn rules_view(s: Seq<CorsRule>) -> Seq<CorsRuleView> {
    s.map_values(|r: CorsRule| r@)
}

/// The values of a list of rules of a bucket.
pub open spec fn garage_rules_view(s: Seq<GarageCorsRule>) -> Seq<GarageCorsRuleView> {
    s.map_values(|r: GarageCorsRule| r@)
}

/// Whether a character is a letter or a digit of ASCII.
pub open spec fn letter_or_digit(c: char) -> bool {
    ('0' <= c && c <= '9') || ('A' <= c && c <= 'Z') || ('a' <= c && c <= 'z')
}

/// Whether a character can stand in an HTTP method.
pub open spec fn method_char(c: char) -> bool {
    letter_or_digit(c) || c == '!' || c == '*' || c == '+' || c == '-' || c == '.' || c == '^'
        || c == '_' || c == '`' || c == '|' || c == '~'
}

/// Whether a character can stand in the name of a header.
pub open spec fn header_name_char(c: char) -> bool {
    method_char(c) || c == '"' || c == '#' || c == '$' || c == '%' || c == '&' || c == '\''
}

/// Whether a text is an HTTP method: not empty, and of characters that can
/// stand in a method.
pub open spec fn is_http_method(text: Seq<char>) -> bool {
    text.len() > 0 && forall|i: int| 0 <= i < text.len() ==> method_char(#[trigger] text[i])
}

/// Whether a text is the name of a header: of 1 to 65535 characters that
/// can stand in such a name.
pub open spec fn is_header_name(text: Seq<char>) -> bool {
    1 <= text.len() <= 65535 && forall|i: int|
        0 <= i < text.len() ==> header_name_char(#[trigger] text[i])
}

/// `http::Method::from_bytes` on the bytes of the text: it succeeds where
/// the text is not empty and each of its bytes is in the table of the
/// characters of a method.
#[verifier::external_body]
pub(crate) fn method_is_valid(text: &str) -> (r: bool)
    ensures
        r == is_http_method(text@),
{
    http::Method::from_bytes(text.as_bytes()).is_ok()
}

/// `http::header::HeaderName::from_bytes` on the bytes of the text: it
/// succeeds where the text has 1 to 65535 bytes and each of them is in the
/// table of the characters of a header name.
#[verifier::external_body]
pub(crate) fn header_name_is_valid(text: &str) -> (r: bool)
    ensures
        r == is_header_name(text@),
{
    http::header::HeaderName::from_bytes(text.as_bytes()).is_ok()
}

/// Whether a character can stand in the value of a header: no control
/// character but the tab.
pub open spec fn value_char(c: char) -> bool {
    (c as u32 >= 32 && c as u32 != 127) || c == '\t'
}

/// Whether a text can be the value of a header.
pub open spec fn is_header_value(text: Seq<char>) -> bool {
    forall|i: int| 0 <= i < text.len() ==> value_char(#[trigger] text[i])
}

/// `http::HeaderValue::from_str`: it succeeds where no byte of the text is
/// a control character other than the tab.
#[verifier::external_body]
pub(crate) fn header_value_is_valid(text: &str) -> (r: bool)
    ensures
        r == is_header_value(text@),
{
    http::HeaderValue::from_str(text).is_ok()
}

/// The index of the first text that does not pass.
pub open spec fn first_failing(texts: Seq<Seq<char>>, pass: spec_fn(Seq<char>) -> bool) -> Option<
    int,
>
    decreases texts.len(),
{
    if texts.len() == 0 {
        None
    } else if !pass(texts[0]) {
        Some(0)
    } else {
        match first_failing(texts.drop_first(), pass) {
            Some(i) => Some(i + 1),
            None => None,
        }
    }
}

/// The message of the error for a method that is none.
pub open spec fn bad_method_message() -> Seq<char> {
    "Invalid CORSRule method: invalid HTTP method"@
}

/// The message of the error for a header name that is none.
pub open spec fn bad_header_message() -> Seq<char> {
    "Invalid HTTP header name: invalid HTTP header name"@
}

/// The error, if any, of a rule: a method that is no HTTP method, else an
/// allowed or exposed header whose name is no header name.
pub open spec fn rule_verdict(rule: CorsRuleView) -> Result<(), ErrorView> {
    if exists|i: int|
        0 <= i < rule.allowed_methods.len() && !is_http_method(#[trigger] rule.allowed_methods[i]) {
        Err(ErrorView::BadRequest(bad_method_message()))
    } else if exists|i: int|
        0 <= i < rule.allowed_headers.len() && !is_header_name(#[trigger] rule.allowed_headers[i]) {
        Err(ErrorView::BadRequest(bad_header_message()))
    } else if exists|i: int|
        0 <= i < rule.expose_headers.len() && !is_header_name(#[trigger] rule.expose_headers[i]) {
        Err(ErrorView::BadRequest(bad_header_message()))
    } else {
        Ok(())
    }
}

/// The error, if any, of a list of rules: that of the first rule that has
/// one.
pub open spec fn rules_verdict(rules: Seq<CorsRuleView>) -> Result<(), ErrorView>
    decreases rules.len(),
{
    if rules.len() == 0 {
        Ok(())
    } else {
        match rule_verdict(rules[0]) {
            Err(e) => Err(e),
            Ok(()) => rules_verdict(rules.drop_first()),
        }
    }
}

fn all_methods(texts: &Vec<Value>) -> (r: bool)
    ensures
        r == (forall|i: int|
            0 <= i < values_view(texts@).len() ==> is_http_method(
                #[trigger] values_view(texts@)[i],
            )),
{
    let mut i: usize = 0;
    while i < texts.len()
        invariant
            i <= texts@.len(),
            forall|j: int| 0 <= j < i ==> is_http_method(#[trigger] values_view(texts@)[j]),
        decreases texts@.len() - i,
    {
        if !method_is_valid(texts[i].0.as_str()) {
            assert(!is_http_method(values_view(texts@)[i as int]));
            return false;
        }
        i = i + 1;
    }
    true
}

fn all_header_names(texts: &Vec<Value>) -> (r: bool)
    ensures
        r == (forall|i: int|
            0 <= i < values_view(texts@).len() ==> is_header_name(
                #[trigger] values_view(texts@)[i],
            )),
{
    let mut i: usize = 0;
    while i < texts.len()
        invariant
            i <= texts@.len(),
            forall|j: int| 0 <= j < i ==> is_header_name(#[trigger] values_view(texts@)[j]),
        decreases texts@.len() - i,
    {
        if !header_name_is_valid(texts[i].0.as_str()) {
            assert(!is_header_name(values_view(texts@)[i as int]));
            return false;
        }
        i = i + 1;
    }
    true
}

fn texts_of(values: &Vec<Value>) -> (r: Vec<String>)
    ensures
        strings_view(r@) == values_view(values@),
{
    let mut r: Vec<String> = Vec::new();
    let mut i: usize = 0;
    while i < values.len()
        invariant
            i <= values@.len(),
            r@.len() == i,
            strings_view(r@) == values_view(values@).subrange(0, i as int),
        decreases values@.len() - i,
    {
        let ghost before = r@;
        r.push(values[i].0.clone());
        assert forall|j: int| 0 <= j < i + 1 implies strings_view(r@)[j] == values_view(
            values@,
        )[j] by {
            if j < i {
                assert(strings_view(before)[j] == values_view(values@).subrange(0, i as int)[j]);
            }
        }
        i = i + 1;
    }
    r
}

fn values_of(texts: &Vec<String>) -> (r: Vec<Value>)
    ensures
        values_view(r@) == strings_view(texts@),
{
    let mut r: Vec<Value> = Vec::new();
    let mut i: usize = 0;
    while i < texts.len()
        invariant
            i <= texts@.len(),
            r@.len() == i,
            values_view(r@) == strings_view(texts@).subrange(0, i as int),
        decreases texts@.len() - i,
    {
        let ghost before = r@;
        r.push(Value(texts[i].clone()));
        assert forall|j: int| 0 <= j < i + 1 implies values_view(r@)[j] == strings_view(
            texts@,
        )[j] by {
            if j < i {
                assert(values_view(before)[j] == strings_view(texts@).subrange(0, i as int)[j]);
            }
        }
        i = i + 1;
    }
    r
}

/// The number of seconds as the bucket keeps it: that of the request, read
/// as an unsigned number of 64 bits.
pub open spec fn seconds_kept(n: i64) -> u64 {
    if n < 0 {
        (n + 0x1_0000_0000_0000_0000) as u64
    } else {
        n as u64
    }
}

/// The number of seconds as an answer gives it: that of the bucket, read as
/// a signed number of 64 bits.
pub open spec fn seconds_shown(n: u64) -> i64 {
    if n > 0x7fff_ffff_ffff_ffff {
        (n - 0x1_0000_0000_0000_0000) as i64
    } else {
        n as i64
    }
}

/// The rule of the bucket that a rule of a request stands for.
pub open spec fn kept_rule(rule: CorsRuleView) -> GarageCorsRuleView {
    GarageCorsRuleView {
        id: rule.id,
        max_age_seconds: match rule.max_age_seconds {
            Some(n) => Some(seconds_kept(n)),
            None => None,
        },
        allow_origins: rule.allowed_origins,
        allow_methods: rule.allowed_methods,
        allow_headers: rule.allowed_headers,
        expose_headers: rule.expose_headers,
    }
}

/// The rule of an answer that shows a rule of the bucket.
pub open spec fn shown_rule(rule: GarageCorsRuleView) -> CorsRuleView {
    CorsRuleView {
        id: rule.id,
        max_age_seconds: match rule.max_age_seconds {
            Some(n) => Some(seconds_shown(n)),
            None => None,
        },
        allowed_origins: rule.allow_origins,
        allowed_methods: rule.allow_methods,
        allowed_headers: rule.allow_headers,
        expose_headers: rule.expose_headers,
    }
}

/// A rule that is kept and shown again is the rule.
pub proof fn lemma_rule_round_trip(rule: CorsRuleView)
    ensures
        shown_rule(kept_rule(rule)) == rule,
{
}

/// The error of a rule, once it is known whether its methods are HTTP
/// methods and whether its allowed and its exposed headers are header
/// names: the methods are reported first.
pub fn rule_error(methods_ok: bool, allowed_headers_ok: bool, expose_headers_ok: bool) -> (r:
    Result<(), Error>)
    ensures
        match r {
            Ok(()) => methods_ok && allowed_headers_ok && expose_headers_ok,
            Err(e) => if !methods_ok {
                e@ == ErrorView::BadRequest(bad_method_message())
            } else {
                !(allowed_headers_ok && expose_headers_ok) && e@ == ErrorView::BadRequest(
                    bad_header_message(),
                )
            },
        },
{
    if !methods_ok {
        return Err(Error::bad_request("Invalid CORSRule method: invalid HTTP method"));
    }
    if !allowed_headers_ok || !expose_headers_ok {
        return Err(Error::bad_request("Invalid HTTP header name: invalid HTTP header name"));
    }
    Ok(())
}

impl CorsRule {
    /// Checks the methods and the header names of the rule.
    pub fn validate(&self) -> (r: Result<(), Error>)
        ensures
            match r {
                Ok(()) => rule_verdict(self@) is Ok,
                Err(e) => rule_verdict(self@) == Err::<(), ErrorView>(e@),
            },
    {
        let methods_ok = all_methods(&self.allowed_methods);
        let allowed_headers_ok = all_header_names(&self.allowed_headers);
        let expose_headers_ok = all_header_names(&self.expose_headers);
        proof {
            if !methods_ok {
                let v = values_view(self.allowed_methods@);
                let i = choose|i: int| 0 <= i < v.len() && !is_http_method(#[trigger] v[i]);
                assert(self@.allowed_methods[i] == v[i]);
            }
            if !allowed_headers_ok {
                let v = values_view(self.allowed_headers@);
                let i = choose|i: int| 0 <= i < v.len() && !is_header_name(#[trigger] v[i]);
                assert(self@.allowed_headers[i] == v[i]);
            }
            if !expose_headers_ok {
                let v = values_view(self.expose_headers@);
                let i = choose|i: int| 0 <= i < v.len() && !is_header_name(#[trigger] v[i]);
                assert(self@.expose_headers[i] == v[i]);
            }
        }
        rule_error(methods_ok, allowed_headers_ok, expose_headers_ok)
    }

    /// The rule as the bucket keeps it.
    pub fn to_garage_cors_rule(&self) -> (r: GarageCorsRule)
        ensures
            r@ == kept_rule(self@),
    {
        GarageCorsRule {
            id: match &self.id {
                Some(v) => Some(v.0.clone()),
                None => None,
            },
            max_age_seconds: match self.max_age_seconds {
                Some(v) => Some(
                    if v.0 < 0 {
                        (v.0 as i128 + 0x1_0000_0000_0000_0000) as u64
                    } else {
                        v.0 as u64
                    },
                ),
                None => None,
            },
            allow_origins: texts_of(&self.allowed_origins),
            allow_methods: texts_of(&self.allowed_methods),
            allow_headers: texts_of(&self.allowed_headers),
            expose_headers: texts_of(&self.expose_headers),
        }
    }

    /// The rule of the bucket as an answer shows it.
    pub fn from_garage_cors_rule(rule: &GarageCorsRule) -> (r: CorsRule)
        ensures
            r@ == shown_rule(rule@),
    {
        CorsRule {
            id: match &rule.id {
                Some(v) => Some(Value(v.clone())),
                None => None,
            },
            max_age_seconds: match rule.max_age_seconds {
                Some(n) => Some(
                    IntValue(
                        if n > 0x7fff_ffff_ffff_ffff {
                            (n as i128 - 0x1_0000_0000_0000_0000) as i64
                        } else {
                            n as i64
                        },
                    ),
                ),
                None => None,
            },
            allowed_origins: values_of(&rule.allow_origins),
            allowed_methods: values_of(&rule.allow_methods),
            allowed_headers: values_of(&rule.allow_headers),
            expose_headers: values_of(&rule.expose_headers),
        }
    }
}

impl CorsConfiguration {
    /// Checks the rules one after the other.
    pub fn validate(&self) -> (r: Result<(), Error>)
        ensures
            match r {
                Ok(()) => rules_verdict(rules_view(self.cors_rules@)) is Ok,
                Err(e) => rules_verdict(rules_view(self.cors_rules@)) == Err::<(), ErrorView>(e@),
            },
    {
        let ghost all = rules_view(self.cors_rules@);
        let mut i: usize = 0;
        assert(all.subrange(0, all.len() as int) =~= all);
        while i < self.cors_rules.len()
            invariant
                i <= self.cors_rules@.len(),
                all == rules_view(self.cors_rules@),
                rules_verdict(all) == rules_verdict(all.subrange(i as int, all.len() as int)),
            decreases self.cors_rules@.len() - i,
        {
            let ghost rest = all.subrange(i as int, all.len() as int);
            proof {
                assert(rest.drop_first() =~= all.subrange(i + 1, all.len() as int));
            }
            match self.cors_rules[i].validate() {
                Err(e) => {
                    return Err(e);
                },
                Ok(()) => {},
            }
            i = i + 1;
        }
        Ok(())
    }

    /// The rules as the bucket keeps them.
    pub fn into_garage_cors_config(self) -> (r: Result<Vec<GarageCorsRule>, Error>)
        ensures
            r matches Ok(rules) && garage_rules_view(rules@) == rules_view(
                self.cors_rules@,
            ).map_values(|v: CorsRuleView| kept_rule(v)),
    {
        let ghost target = rules_view(self.cors_rules@).map_values(|v: CorsRuleView| kept_rule(v));
        let mut rules: Vec<GarageCorsRule> = Vec::new();
        let mut i: usize = 0;
        while i < self.cors_rules.len()
            invariant
                i <= self.cors_rules@.len(),
                rules@.len() == i,
                target == rules_view(self.cors_rules@).map_values(|v: CorsRuleView| kept_rule(v)),
                garage_rules_view(rules@) == target.subrange(0, i as int),
            decreases self.cors_rules@.len() - i,
        {
            let ghost before = rules@;
            rules.push(self.cors_rules[i].to_garage_cors_rule());
            assert forall|j: int| 0 <= j < i + 1 implies garage_rules_view(rules@)[j]
                == target[j] by {
                if j < i {
                    assert(garage_rules_view(before)[j] == target.subrange(0, i as int)[j]);
                }
            }
            i = i + 1;
        }
        Ok(rules)
    }
}

/// Whether a list of a rule allows a text: it holds a star or the text.
pub open spec fn allows(list: Seq<Seq<char>>, text: Seq<char>) -> bool {
    exists|i: int| 0 <= i < list.len() && (#[trigger] list[i] == "*"@ || list[i] == text)
}

/// Whether a rule allows a request: its origin, its method and each of the
/// headers that it names.
pub open spec fn rule_matches(
    rule: GarageCorsRuleView,
    origin: Seq<char>,
    method: Seq<char>,
    request_headers: Seq<Seq<char>>,
) -> bool {
    &&& allows(rule.allow_origins, origin)
    &&& allows(rule.allow_methods, method)
    &&& forall|i: int|
        0 <= i < request_headers.len() ==> allows(rule.allow_headers, #[trigger] request_headers[i])
}

fn list_allows(list: &Vec<String>, text: &str) -> (r: bool)
    ensures
        r == allows(strings_view(list@), text@),
{
    let ghost s = strings_view(list@);
    let mut i: usize = 0;
    while i < list.len()
        invariant
            i <= list@.len(),
            s == strings_view(list@),
            forall|j: int| 0 <= j < i ==> !(#[trigger] s[j] == "*"@ || s[j] == text@),
        decreases list@.len() - i,
    {
        if str_eq(list[i].as_str(), "*") || str_eq(list[i].as_str(), text) {
            assert(s[i as int] == "*"@ || s[i as int] == text@);
            return true;
        }
        i = i + 1;
    }
    false
}

/// Whether a rule allows a request with the given origin, method and
/// requested headers.
pub fn cors_rule_matches(
    rule: &GarageCorsRule,
    origin: &str,
    method: &str,
    request_headers: &Vec<String>,
) -> (r: bool)
    ensures
        r == rule_matches(rule@, origin@, method@, strings_view(request_headers@)),
{
    if !list_allows(&rule.allow_origins, origin) {
        return false;
    }
    if !list_allows(&rule.allow_methods, method) {
        return false;
    }
    let ghost hs = strings_view(request_headers@);
    let mut i: usize = 0;
    while i < request_headers.len()
        invariant
            i <= request_headers@.len(),
            hs == strings_view(request_headers@),
            forall|j: int| 0 <= j < i ==> allows(rule@.allow_headers, #[trigger] hs[j]),
        decreases request_headers@.len() - i,
    {
        if !list_allows(&rule.allow_headers, request_headers[i].as_str()) {
            assert(!allows(rule@.allow_headers, hs[i as int]));
            return false;
        }
        i = i + 1;
    }
    true
}

/// The texts of a list with a comma and a space between each two.
pub open spec fn joined(list: Seq<Seq<char>>) -> Seq<char>
    decreases list.len(),
{
    if list.len() == 0 {
        Seq::empty()
    } else if list.len() == 1 {
        list[0]
    } else {
        joined(list.drop_last()) + ", "@ + list.last()
    }
}

fn join(list: &Vec<String>) -> (r: String)
    ensures
        r@ == joined(strings_view(list@)),
{
    let ghost s = strings_view(list@);
    let mut r = String::new();
    let mut i: usize = 0;
    while i < list.len()
        invariant
            i <= list@.len(),
            s == strings_view(list@),
            r@ == joined(s.subrange(0, i as int)),
        decreases list@.len() - i,
    {
        proof {
            assert(s.subrange(0, i + 1).drop_last() =~= s.subrange(0, i as int));
        }
        if i > 0 {
            r.append(", ");
        }
        r.append(list[i].as_str());
        i = i + 1;
    }
    assert(s.subrange(0, i as int) =~= s);
    r
}

/// A list of a rule can not be the value of a header.
#[derive(Debug, Clone, Copy, PartialEq, Eq)]
pub struct InvalidHeaderValue;

/// The headers that answer a request which a rule allows, where each list
/// of the rule can be the value of a header.
pub open spec fn cors_headers(rule: GarageCorsRuleView) -> Option<Seq<(Seq<char>, Seq<char>)>> {
    if is_header_value(joined(rule.allow_origins)) && is_header_value(joined(rule.allow_methods))
        && is_header_value(joined(rule.allow_headers)) && is_header_value(
        joined(rule.expose_headers),
    ) {
        Some(
            seq![
                ("access-control-allow-origin"@, joined(rule.allow_origins)),
                ("access-control-allow-methods"@, joined(rule.allow_methods)),
                ("access-control-allow-headers"@, joined(rule.allow_headers)),
                ("access-control-expose-headers"@, joined(rule.expose_headers)),
            ],
        )
    } else {
        None
    }
}

/// The headers to add to the answer to a request that `rule` allows.
pub fn add_cors_headers(rule: &GarageCorsRule) -> (r: Result<
    Vec<(String, String)>,
    InvalidHeaderValue,
>)
    ensures
        match r {
            Ok(h) => cors_headers(rule@) == Some(crate::headers::pairs_view(h@)),
            Err(_) => cors_headers(rule@) is None,
        },
{
    let origins = join(&rule.allow_origins);
    if !header_value_is_valid(origins.as_str()) {
        return Err(InvalidHeaderValue);
    }
    let methods = join(&rule.allow_methods);
    if !header_value_is_valid(methods.as_str()) {
        return Err(InvalidHeaderValue);
    }
    let headers = join(&rule.allow_headers);
    if !header_value_is_valid(headers.as_str()) {
        return Err(InvalidHeaderValue);
    }
    let exposed = join(&rule.expose_headers);
    if !header_value_is_valid(exposed.as_str()) {
        return Err(InvalidHeaderValue);
    }
    let mut h: Vec<(String, String)> = Vec::new();
    h.push((String::from_str("access-control-allow-origin"), origins));
    h.push((String::from_str("access-control-allow-methods"), methods));
    h.push((String::from_str("access-control-allow-headers"), headers));
    h.push((String::from_str("access-control-expose-headers"), exposed));
    Ok(h)
}

} // verus!
