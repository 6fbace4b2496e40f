//! Small operations on strings, stated over their sequences of characters.
use vstd::prelude::*;

verus! {

/// The prefix followed by the text.
pub(crate) fn prefixed(prefix: &str, text: &String) -> (r: String)
    ensures
        r@ == prefix@ + text@,
{
    let mut s = String::from_str(prefix);
    s.append(text.as_str());
    s
}

/// Whether two string slices hold the same characters.
pub fn str_eq(a: &str, b: &str) -> (r: bool)
    ensures
        r == (a@ == b@),
{
    let n = a.unicode_len();
    if n != b.unicode_len() {
        return false;
    }
    let mut i: usize = 0;
    while i < n
        invariant
            i <= n,
            n == a@.len(),
            n == b@.len(),
            forall|j: int| 0 <= j < i ==> a@[j] == b@[j],
        decreases n - i,
    {
        if a.get_char(i) != b.get_char(i) {
            return false;
        }
        i = i + 1;
    }
    assert(a@ =~= b@);
    true
}

/// The characters of a string slice, where there is one.
pub open spec fn opt_chars(s: Option<&str>) -> Option<Seq<char>> {
    match s {
        Some(t) => Some(t@),
        None => None,
    }
}

/// Whether `s` starts with `p`.
pub open spec fn has_prefix(s: Seq<char>, p: Seq<char>) -> bool {
    p.len() <= s.len() && s.subrange(0, p.len() as int) == p
}

/// Whether `s` ends with `p`.
pub open spec fn has_suffix(s: Seq<char>, p: Seq<char>) -> bool {
    p.len() <= s.len() && s.subrange(s.len() - p.len(), s.len() as int) == p
}

/// Whether `s` starts with `p`.
pub fn starts_with(s: &str, p: &str) -> (r: bool)
    ensures
        r == has_prefix(s@, p@),
{
    let n = s.unicode_len();
    let m = p.unicode_len();
    if m > n {
        return false;
    }
    let mut i: usize = 0;
    while i < m
        invariant
            i <= m <= n,
            n == s@.len(),
            m == p@.len(),
            forall|j: int| 0 <= j < i ==> s@[j] == p@[j],
        decreases m - i,
    {
        if s.get_char(i) != p.get_char(i) {
            return false;
        }
        i = i + 1;
    }
    assert(s@.subrange(0, m as int) =~= p@);
    true
}

/// Whether `s` ends with `p`.
pub fn ends_with(s: &str, p: &str) -> (r: bool)
    ensures
        r == has_suffix(s@, p@),
{
    let n = s.unicode_len();
    let m = p.unicode_len();
    if m > n {
        return false;
    }
    let d = n - m;
    let mut i: usize = 0;
    while i < m
        invariant
            i <= m <= n,
            d == n - m,
            n == s@.len(),
            m == p@.len(),
            forall|j: int| 0 <= j < i ==> s@[d + j] == p@[j],
        decreases m - i,
    {
        if s.get_char(d + i) != p.get_char(i) {
            return false;
        }
        i = i + 1;
    }
    assert(s@.subrange(n - m, n as int) =~= p@);
    true
}

/// Whether `a` comes before `b` in the order of a dictionary, character by
/// character, a shorter text before the texts that it starts. This is the
/// order of the bytes of the texts.
pub open spec fn text_lt(a: Seq<char>, b: Seq<char>) -> bool {
    exists|i: int|
        0 <= i <= a.len() && i <= b.len() && #[trigger] a.subrange(0, i) == b.subrange(0, i) && i
            < b.len() && (i == a.len() || a[i] < b[i])
}

/// Where a text stands with regard to another.
#[derive(Debug, Clone, Copy, PartialEq, Eq)]
pub enum Place {
    Before,
    Same,
    After,
}

proof fn lemma_text_witness(a: Seq<char>, b: Seq<char>, i: int)
    requires
        0 <= i <= a.len(),
        i < b.len(),
        forall|j: int| 0 <= j < i ==> a[j] == b[j],
        i == a.len() || a[i] < b[i],
    ensures
        text_lt(a, b),
{
    assert(a.subrange(0, i) =~= b.subrange(0, i));
}

proof fn lemma_text_prefix(a: Seq<char>, b: Seq<char>, i: int)
    requires
        0 <= i <= a.len(),
        i <= b.len(),
        a.subrange(0, i) == b.subrange(0, i),
    ensures
        forall|j: int| 0 <= j < i ==> a[j] == b[j],
{
    assert forall|j: int| 0 <= j < i implies a[j] == b[j] by {
        assert(a.subrange(0, i)[j] == a[j]);
        assert(b.subrange(0, i)[j] == b[j]);
    }
}

proof fn lemma_text_total(a: Seq<char>, b: Seq<char>, from: int)
    requires
        0 <= from <= a.len(),
        from <= b.len(),
        forall|j: int| 0 <= j < from ==> a[j] == b[j],
    ensures
        text_lt(a, b) || text_lt(b, a) || a == b,
    decreases a.len() - from,
{
    if from == a.len() {
        if from == b.len() {
            assert(a =~= b);
        } else {
            lemma_text_witness(a, b, from);
        }
    } else if from == b.len() {
        lemma_text_witness(b, a, from);
    } else if a[from] < b[from] {
        lemma_text_witness(a, b, from);
    } else if b[from] < a[from] {
        lemma_text_witness(b, a, from);
    } else {
        lemma_text_total(a, b, from + 1);
    }
}

/// The order of a dictionary is a strict total order on texts.
pub proof fn lemma_text_order(a: Seq<char>, b: Seq<char>, c: Seq<char>)
    ensures
        !text_lt(a, a),
        text_lt(a, b) && text_lt(b, c) ==> text_lt(a, c),
        text_lt(a, b) || text_lt(b, a) || a == b,
{
    if text_lt(a, b) && text_lt(b, c) {
        let i = choose|i: int|
            0 <= i <= a.len() && i <= b.len() && #[trigger] a.subrange(0, i) == b.subrange(0, i)
                && i < b.len() && (i == a.len() || a[i] < b[i]);
        let k = choose|k: int|
            0 <= k <= b.len() && k <= c.len() && #[trigger] b.subrange(0, k) == c.subrange(0, k)
                && k < c.len() && (k == b.len() || b[k] < c[k]);
        lemma_text_prefix(a, b, i);
        lemma_text_prefix(b, c, k);
        let m = if i <= k {
            i
        } else {
            k
        };
        lemma_text_witness(a, c, m);
    }
    lemma_text_total(a, b, 0);
}

/// Where `a` stands with regard to `b` in the order of a dictionary.
pub fn place_of(a: &str, b: &str) -> (r: Place)
    ensures
        match r {
            Place::Before => text_lt(a@, b@),
            Place::Same => a@ == b@,
            Place::After => text_lt(b@, a@),
        },
{
    let n = a.unicode_len();
    let m = b.unicode_len();
    let mut i: usize = 0;
    while i < n && i < m
        invariant
            i <= n,
            i <= m,
            n == a@.len(),
            m == b@.len(),
            forall|j: int| 0 <= j < i ==> a@[j] == b@[j],
        decreases n - i,
    {
        let x = a.get_char(i);
        let y = b.get_char(i);
        if x < y {
            proof {
                lemma_text_witness(a@, b@, i as int);
            }
            return Place::Before;
        }
        if y < x {
            proof {
                lemma_text_witness(b@, a@, i as int);
            }
            return Place::After;
        }
        i = i + 1;
    }
    if n < m {
        proof {
            lemma_text_witness(a@, b@, i as int);
        }
        Place::Before
    } else if m < n {
        proof {
            lemma_text_witness(b@, a@, i as int);
        }
        Place::After
    } else {
        assert(a@ =~= b@);
        Place::Same
    }
}

/// The characters of `s` without one leading and one trailing double quote,
/// where it has them.
pub open spec fn strip_one_quote(s: Seq<char>) -> Seq<char> {
    let a = if s.len() > 0 && s[0] == '"' {
        s.subrange(1, s.len() as int)
    } else {
        s
    };
    if a.len() > 0 && a.last() == '"' {
        a.subrange(0, a.len() - 1)
    } else {
        a
    }
}

/// `s` without one leading and one trailing double quote, where it has
/// them.
pub fn strip_quote_pair(s: &str) -> (r: &str)
    ensures
        r@ == strip_one_quote(s@),
{
    let n = s.unicode_len();
    let from: usize = if n > 0 && s.get_char(0) == '"' {
        1
    } else {
        0
    };
    let a = s.substring_char(from, n);
    assert(a@ =~= if s@.len() > 0 && s@[0] == '"' {
        s@.subrange(1, s@.len() as int)
    } else {
        s@
    });
    let m = n - from;
    if m > 0 && a.get_char(m - 1) == '"' {
        a.substring_char(0, m - 1)
    } else {
        a
    }
}

/// The number of leading double quotes of `s`.
pub open spec fn leading_quotes(s: Seq<char>) -> nat
    decreases s.len(),
{
    if s.len() > 0 && s[0] == '"' {
        1 + leading_quotes(s.subrange(1, s.len() as int))
    } else {
        0
    }
}

/// The number of trailing double quotes of `s`.
pub open spec fn trailing_quotes(s: Seq<char>) -> nat
    decreases s.len(),
{
    if s.len() > 0 && s.last() == '"' {
        1 + trailing_quotes(s.subrange(0, s.len() - 1))
    } else {
        0
    }
}

/// The characters of `s` without any of its leading and trailing double
/// quotes.
pub open spec fn trim_quotes_spec(s: Seq<char>) -> Seq<char> {
    let a = s.subrange(leading_quotes(s) as int, s.len() as int);
    a.subrange(0, a.len() - trailing_quotes(a))
}

proof fn lemma_leading_quotes(s: Seq<char>, k: int)
    requires
        0 <= k <= s.len(),
        forall|j: int| 0 <= j < k ==> s[j] == '"',
        k < s.len() ==> s[k] != '"',
    ensures
        leading_quotes(s) == k,
    decreases k,
{
    if k > 0 {
        let t = s.subrange(1, s.len() as int);
        lemma_leading_quotes(t, k - 1);
    }
}

proof fn lemma_trailing_quotes(s: Seq<char>, k: int)
    requires
        0 <= k <= s.len(),
        forall|j: int| s.len() - k <= j < s.len() ==> s[j] == '"',
        k < s.len() ==> s[s.len() - k - 1] != '"',
    ensures
        trailing_quotes(s) == k,
    decreases k,
{
    if k > 0 {
        let t = s.subrange(0, s.len() - 1);
        lemma_trailing_quotes(t, k - 1);
    }
}

/// `s` without its leading and trailing double quotes.
pub fn trim_quotes(s: &str) -> (r: &str)
    ensures
        r@ == trim_quotes_spec(s@),
{
    let n = s.unicode_len();
    let mut from: usize = 0;
    while from < n && s.get_char(from) == '"'
        invariant
            from <= n,
            n == s@.len(),
            forall|j: int| 0 <= j < from ==> s@[j] == '"',
        decreases n - from,
    {
        from = from + 1;
    }
    proof {
        lemma_leading_quotes(s@, from as int);
    }
    let a = s.substring_char(from, n);
    let m = n - from;
    let mut to: usize = m;
    while to > 0 && a.get_char(to - 1) == '"'
        invariant
            to <= m,
            m == a@.len(),
            forall|j: int| to <= j < m ==> a@[j] == '"',
        decreases to,
    {
        to = to - 1;
    }
    proof {
        lemma_trailing_quotes(a@, m - to);
    }
    a.substring_char(0, to)
}

/// The character of a decimal digit.
pub open spec fn digit_char(d: int) -> char {
    if d == 0 {
        '0'
    } else if d == 1 {
        '1'
    } else if d == 2 {
        '2'
    } else if d == 3 {
        '3'
    } else if d == 4 {
        '4'
    } else if d == 5 {
        '5'
    } else if d == 6 {
        '6'
    } else if d == 7 {
        '7'
    } else if d == 8 {
        '8'
    } else {
        '9'
    }
}

/// The decimal numeral of `n`, without leading zeros.
pub open spec fn decimal(n: nat) -> Seq<char>
    decreases n,
{
    if n < 10 {
        seq![digit_char(n as int)]
    } else {
        decimal(n / 10).push(digit_char((n % 10) as int))
    }
}

/// The numeral of one decimal digit.
fn digit_text(d: u64) -> (r: &'static str)
    requires
        d < 10,
    ensures
        r@ == seq![digit_char(d as int)],
{
    proof {
        reveal_strlit("0");
        reveal_strlit("1");
        reveal_strlit("2");
        reveal_strlit("3");
        reveal_strlit("4");
        reveal_strlit("5");
        reveal_strlit("6");
        reveal_strlit("7");
        reveal_strlit("8");
        reveal_strlit("9");
    }
    let r = if d == 0 {
        "0"
    } else if d == 1 {
        "1"
    } else if d == 2 {
        "2"
    } else if d == 3 {
        "3"
    } else if d == 4 {
        "4"
    } else if d == 5 {
        "5"
    } else if d == 6 {
        "6"
    } else if d == 7 {
        "7"
    } else if d == 8 {
        "8"
    } else {
        "9"
    };
    assert(r@ =~= seq![digit_char(d as int)]);
    r
}

fn push_decimal(s: &mut String, n: u64)
    ensures
        final(s)@ == old(s)@ + decimal(n as nat),
    decreases n,
{
    if n >= 10 {
        push_decimal(s, n / 10);
    }
    let ghost before = s@;
    s.append(digit_text(n % 10));
    assert(s@ =~= before.push(digit_char((n % 10) as int)));
}

/// The decimal numeral of `n`.
pub fn u64_to_string(n: u64) -> (r: String)
    ensures
        r@ == decimal(n as nat),
{
    let mut s = String::new();
    push_decimal(&mut s, n);
    s
}

/// The decimal numeral of an integer, with a minus sign where it is
/// negative.
pub open spec fn signed_decimal(n: int) -> Seq<char> {
    if n < 0 {
        seq!['-'] + decimal((-n) as nat)
    } else {
        decimal(n as nat)
    }
}

/// The decimal numeral of `n`.
pub fn i64_to_string(n: i64) -> (r: String)
    ensures
        r@ == signed_decimal(n as int),
{
    let mut s = String::new();
    if n < 0 {
        proof {
            reveal_strlit("-");
        }
        s.append("-");
        assert(s@ =~= seq!['-']);
        let m: u64 = ((-(n + 1)) as u64) + 1;
        push_decimal(&mut s, m);
    } else {
        push_decimal(&mut s, n as u64);
    }
    s
}

/// The value of a decimal digit, if `c` is one.
pub open spec fn digit_value(c: char) -> Option<int> {
    if c == '0' {
        Some(0)
    } else if c == '1' {
        Some(1)
    } else if c == '2' {
        Some(2)
    } else if c == '3' {
        Some(3)
    } else if c == '4' {
        Some(4)
    } else if c == '5' {
        Some(5)
    } else if c == '6' {
        Some(6)
    } else if c == '7' {
        Some(7)
    } else if c == '8' {
        Some(8)
    } else if c == '9' {
        Some(9)
    } else {
        None
    }
}

/// Whether every character is a decimal digit.
pub open spec fn all_digits(s: Seq<char>) -> bool {
    forall|i: int| 0 <= i < s.len() ==> digit_value(#[trigger] s[i]) is Some
}

/// The number that a sequence of decimal digits denotes.
pub open spec fn digits_value(s: Seq<char>) -> nat
    decreases s.len(),
{
    if s.len() == 0 {
        0
    } else {
        digits_value(s.drop_last()) * 10 + match digit_value(s.last()) {
            Some(d) => d as nat,
            None => 0,
        }
    }
}

/// What a decimal numeral denotes as a `u64`: an optional `+`, then one or
/// more digits, whose value fits.
pub open spec fn parse_u64_spec(s: Seq<char>) -> Option<u64> {
    let d = if s.len() > 0 && s[0] == '+' {
        s.subrange(1, s.len() as int)
    } else {
        s
    };
    if d.len() > 0 && all_digits(d) && digits_value(d) <= u64::MAX {
        Some(digits_value(d) as u64)
    } else {
        None
    }
}

/// The value of a decimal digit, if `c` is one.
pub(crate) fn digit_of_char(c: char) -> (r: Option<u64>)
    ensures
        match r {
            Some(d) => digit_value(c) == Some(d as int) && d < 10,
            None => digit_value(c) is None,
        },
{
    if c == '0' {
        Some(0)
    } else if c == '1' {
        Some(1)
    } else if c == '2' {
        Some(2)
    } else if c == '3' {
        Some(3)
    } else if c == '4' {
        Some(4)
    } else if c == '5' {
        Some(5)
    } else if c == '6' {
        Some(6)
    } else if c == '7' {
        Some(7)
    } else if c == '8' {
        Some(8)
    } else if c == '9' {
        Some(9)
    } else {
        None
    }
}

proof fn lemma_digits_value_grows(s: Seq<char>, k: int)
    requires
        0 <= k <= s.len(),
    ensures
        digits_value(s.subrange(0, k)) <= digits_value(s),
    decreases s.len() - k,
{
    if k == s.len() {
        assert(s.subrange(0, k) =~= s);
    } else {
        lemma_digits_value_grows(s, k + 1);
        let t = s.subrange(0, k + 1);
        assert(t.drop_last() =~= s.subrange(0, k));
    }
}

/// Reads a decimal numeral as `str::parse::<u64>` does.
pub fn parse_u64(s: &str) -> (r: Option<u64>)
    ensures
        r == parse_u64_spec(s@),
{
    let n = s.unicode_len();
    let from: usize = if n > 0 && s.get_char(0) == '+' {
        1
    } else {
        0
    };
    let d = s.substring_char(from, n);
    let m = n - from;
    assert(d@ =~= if s@.len() > 0 && s@[0] == '+' {
        s@.subrange(1, s@.len() as int)
    } else {
        s@
    });
    if m == 0 {
        return None;
    }
    let mut acc: u64 = 0;
    let mut i: usize = 0;
    while i < m
        invariant
            i <= m,
            0 < m == d@.len(),
            parse_u64_spec(s@) == if all_digits(d@) && digits_value(d@) <= u64::MAX {
                Some(digits_value(d@) as u64)
            } else {
                None
            },
            all_digits(d@.subrange(0, i as int)),
            acc == digits_value(d@.subrange(0, i as int)),
        decreases m - i,
    {
        let c = d.get_char(i);
        proof {
            assert(d@.subrange(0, i + 1).drop_last() =~= d@.subrange(0, i as int));
            lemma_digits_value_grows(d@, i + 1);
        }
        match digit_of_char(c) {
            None => {
                return None;
            },
            Some(v) => {
                if acc > (u64::MAX - v) / 10 {
                    return None;
                }
                acc = acc * 10 + v;
                assert(all_digits(d@.subrange(0, i + 1)));
            },
        }
        i = i + 1;
    }
    assert(d@.subrange(0, m as int) =~= d@);
    Some(acc)
}

} // verus!
