//! The names given to buckets in the global name space.
use crate::data::{bytes_lt, lemma_uuid_order, Uuid};
use crate::text::{
    all_digits, digit_of_char, digit_value, digits_value, ends_with, has_prefix, has_suffix,
    starts_with,
};
use vstd::prelude::*;

verus! {

/// Whether a character can stand in a bucket name: a lower-case letter, a
/// digit, a dot or a hyphen.
pub open spec fn name_char(c: char) -> bool {
    ('a' <= c && c <= 'z') || digit_value(c) is Some || c == '.' || c == '-'
}

/// The index of the first dot of `s`, or its length where it has none.
pub open spec fn first_dot(s: Seq<char>) -> int
    decreases s.len(),
{
    if s.len() == 0 || s[0] == '.' {
        0
    } else {
        1 + first_dot(s.drop_first())
    }
}

/// Whether `s` is the decimal numeral of a byte: one to three digits, no
/// zero in front of another digit, at most 255.
pub open spec fn is_octet(s: Seq<char>) -> bool {
    &&& 1 <= s.len() <= 3
    &&& all_digits(s)
    &&& (s.len() == 1 || s[0] != '0')
    &&& digits_value(s) <= 255
}

/// Whether `s` is `count` numerals of bytes with a dot between each two.
pub open spec fn is_octets(s: Seq<char>, count: nat) -> bool
    decreases count,
{
    let k = first_dot(s);
    if count == 0 {
        false
    } else if count == 1 {
        k == s.len() && is_octet(s)
    } else {
        k < s.len() && is_octet(s.subrange(0, k)) && is_octets(
            s.subrange(k + 1, s.len() as int),
            (count - 1) as nat,
        )
    }
}

/// Whether `s` is an IPv4 address in dotted decimal notation.
pub open spec fn is_ipv4(s: Seq<char>) -> bool {
    is_octets(s, 4)
}

/// Whether a name can be given to a bucket. A name has 3 to 63 characters,
/// which are lower-case letters, digits, dots and hyphens; it neither starts
/// nor ends with a dot or a hyphen; it is no IP address; it does not start
/// with `xn--` and does not end with `-s3alias`.
///
/// An IPv6 address holds a colon, so the characters that are allowed leave
/// only the addresses in dotted decimal notation to rule out.
pub open spec fn valid_bucket_name(n: Seq<char>) -> bool {
    &&& 3 <= n.len() <= 63
    &&& forall|i: int| 0 <= i < n.len() ==> name_char(#[trigger] n[i])
    &&& n[0] != '-' && n[0] != '.'
    &&& n.last() != '-' && n.last() != '.'
    &&& !is_ipv4(n)
    &&& !has_prefix(n, "xn--"@)
    &&& !has_suffix(n, "-s3alias"@)
}

proof fn lemma_first_dot(s: Seq<char>, k: int)
    requires
        0 <= k <= s.len(),
        forall|j: int| 0 <= j < k ==> s[j] != '.',
        k < s.len() ==> s[k] == '.',
    ensures
        first_dot(s) == k,
    decreases k,
{
    if k > 0 {
        let t = s.drop_first();
        lemma_first_dot(t, k - 1);
    }
}

fn is_name_char(c: char) -> (r: bool)
    ensures
        r == name_char(c),
{
    ('a' <= c && c <= 'z') || digit_of_char(c).is_some() || c == '.' || c == '-'
}

/// Whether the characters from `from` to `to` are the numeral of a byte.
fn octet_between(chars: &Vec<char>, from: usize, to: usize) -> (r: bool)
    requires
        from <= to <= chars@.len(),
    ensures
        r == is_octet(chars@.subrange(from as int, to as int)),
{
    let ghost s = chars@.subrange(from as int, to as int);
    let len = to - from;
    if len < 1 || len > 3 {
        return false;
    }
    if len > 1 && chars[from] == '0' {
        return false;
    }
    let mut value: u64 = 0;
    let mut i: usize = 0;
    while i < len
        invariant
            i <= len <= 3,
            len == to - from,
            to <= chars@.len(),
            s == chars@.subrange(from as int, to as int),
            all_digits(s.subrange(0, i as int)),
            value == digits_value(s.subrange(0, i as int)),
            i == 0 ==> value == 0,
            i == 1 ==> value <= 9,
            i == 2 ==> value <= 99,
            value <= 999,
        decreases len - i,
    {
        let ghost p = s.subrange(0, i as int);
        let ghost q = s.subrange(0, i + 1);
        proof {
            assert(q.drop_last() =~= p);
        }
        match digit_of_char(chars[from + i]) {
            None => {
                return false;
            },
            Some(d) => {
                value = value * 10 + d;
            },
        }
        i = i + 1;
    }
    assert(s.subrange(0, len as int) =~= s);
    value <= 255
}

/// Whether the characters are an IPv4 address in dotted decimal notation.
fn is_ipv4_text(chars: &Vec<char>) -> (r: bool)
    ensures
        r == is_ipv4(chars@),
{
    let n = chars.len();
    let mut pos: usize = 0;
    let mut group: usize = 0;
    assert(chars@.subrange(0, n as int) =~= chars@);
    while group < 4
        invariant
            group <= 4,
            pos <= n,
            n == chars@.len(),
            group < 4 ==> is_ipv4(chars@) == is_octets(
                chars@.subrange(pos as int, n as int),
                (4 - group) as nat,
            ),
            group == 4 ==> is_ipv4(chars@),
        decreases 4 - group,
    {
        let ghost s = chars@.subrange(pos as int, n as int);
        let mut k: usize = pos;
        while k < n && chars[k] != '.'
            invariant
                pos <= k <= n,
                n == chars@.len(),
                forall|j: int| pos <= j < k ==> chars@[j] != '.',
            decreases n - k,
        {
            k = k + 1;
        }
        proof {
            lemma_first_dot(s, k - pos);
            assert(s.subrange(0, k - pos) =~= chars@.subrange(pos as int, k as int));
        }
        let octet = octet_between(chars, pos, k);
        if group == 3 {
            return k == n && octet;
        }
        if k >= n || !octet {
            return false;
        }
        proof {
            assert(s.subrange(k - pos + 1, s.len() as int) =~= chars@.subrange(
                k + 1,
                n as int,
            ));
        }
        pos = k + 1;
        group = group + 1;
    }
    true
}

/// Checks whether a name can be given to a bucket.
pub fn is_valid_bucket_name(n: &str) -> (r: bool)
    ensures
        r == valid_bucket_name(n@),
{
    let len = n.unicode_len();
    if len < 3 || len > 63 {
        return false;
    }
    let mut chars: Vec<char> = Vec::new();
    let mut i: usize = 0;
    while i < len
        invariant
            i <= len,
            len == n@.len(),
            chars@ == n@.subrange(0, i as int),
            forall|j: int| 0 <= j < i ==> name_char(#[trigger] n@[j]),
        decreases len - i,
    {
        let c = n.get_char(i);
        if !is_name_char(c) {
            return false;
        }
        chars.push(c);
        i = i + 1;
    }
    assert(chars@ =~= n@);
    let first = chars[0];
    let last = chars[len - 1];
    if first == '-' || first == '.' || last == '-' || last == '.' {
        return false;
    }
    !is_ipv4_text(&chars) && !starts_with(n, "xn--") && !ends_with(n, "-s3alias")
}

/// A value that is there or was deleted.
#[derive(Debug, Clone, Copy, PartialEq, Eq)]
pub enum Deletable<T> {
    Present(T),
    Deleted,
}

/// A value with the time at which it was set: of two, the later one counts.
#[derive(Debug, Clone, Copy, PartialEq, Eq)]
pub struct Lww<T> {
    pub ts: u64,
    pub v: T,
}

/// What an alias stands for.
#[derive(Debug, Clone, Copy, PartialEq, Eq)]
pub struct AliasParams {
    pub bucket_id: Uuid,
}

/// A name of a bucket in the global name space.
#[derive(Debug, Clone, PartialEq, Eq)]
pub struct BucketAlias {
    name: String,
    pub state: Lww<Deletable<AliasParams>>,
}

/// Which entries of a table a reader asks for.
#[derive(Debug, Clone, Copy, PartialEq, Eq)]
pub enum DeletedFilter {
    Any,
    Deleted,
    NotDeleted,
}

/// The key of a table that has one partition only.
#[derive(Debug, Clone, Copy, PartialEq, Eq, Structural)]
pub struct EmptyKey;

/// The table of the aliases.
pub struct BucketAliasTable;

/// Of two states of an alias, the one that counts: the later one; at the
/// same time a deleted one; of two that are present, the one with the
/// greater bucket.
pub open spec fn merged_state(
    a: Lww<Deletable<AliasParams>>,
    b: Lww<Deletable<AliasParams>>,
) -> Lww<Deletable<AliasParams>> {
    if a.ts < b.ts {
        b
    } else if b.ts < a.ts {
        a
    } else {
        match (a.v, b.v) {
            (Deletable::Deleted, _) => a,
            (_, Deletable::Deleted) => b,
            (Deletable::Present(x), Deletable::Present(y)) => if bytes_lt(
                x.bucket_id@,
                y.bucket_id@,
            ) {
                b
            } else {
                a
            },
        }
    }
}

/// Merging the states of an alias does not depend on their order, nor on
/// how they are grouped, and a state merged with itself is itself.
pub proof fn lemma_merge_laws(
    a: Lww<Deletable<AliasParams>>,
    b: Lww<Deletable<AliasParams>>,
    c: Lww<Deletable<AliasParams>>,
)
    ensures
        merged_state(a, a) == a,
        merged_state(a, b) == merged_state(b, a),
        merged_state(merged_state(a, b), c) == merged_state(a, merged_state(b, c)),
{
    if let Deletable::Present(x) = a.v {
        if let Deletable::Present(y) = b.v {
            lemma_uuid_order(x.bucket_id, y.bucket_id, x.bucket_id);
        }
    }
}

impl DeletedFilter {
    /// Whether an entry that is deleted, or is not, passes the filter.
    pub fn apply(&self, deleted: bool) -> (r: bool)
        ensures
            r == match *self {
                DeletedFilter::Any => true,
                DeletedFilter::Deleted => deleted,
                DeletedFilter::NotDeleted => !deleted,
            },
    {
        match self {
            DeletedFilter::Any => true,
            DeletedFilter::Deleted => deleted,
            DeletedFilter::NotDeleted => !deleted,
        }
    }
}

/// The mathematical value of a [`BucketAlias`].
pub struct BucketAliasView {
    pub name: Seq<char>,
    pub state: Lww<Deletable<AliasParams>>,
}

impl View for BucketAlias {
    type V = BucketAliasView;

    closed spec fn view(&self) -> BucketAliasView {
        BucketAliasView { name: self.name@, state: self.state }
    }
}

impl BucketAlias {
    /// The alias `name` of the bucket, set at the time `now_msec`; none
    /// where the name can not be given to a bucket.
    pub fn new(name: String, bucket_id: Uuid, now_msec: u64) -> (r: Option<BucketAlias>)
        ensures
            match r {
                Some(alias) => valid_bucket_name(name@) && alias@ == (BucketAliasView {
                    name: name@,
                    state: Lww { ts: now_msec, v: Deletable::Present(AliasParams { bucket_id }) },
                }),
                None => !valid_bucket_name(name@),
            },
    {
        if !is_valid_bucket_name(name.as_str()) {
            None
        } else {
            Some(
                BucketAlias {
                    name,
                    state: Lww { ts: now_msec, v: Deletable::Present(AliasParams { bucket_id }) },
                },
            )
        }
    }

    /// Whether the alias was deleted.
    pub fn is_deleted(&self) -> (r: bool)
        ensures
            r == (self@.state.v is Deleted),
    {
        match self.state.v {
            Deletable::Deleted => true,
            Deletable::Present(_) => false,
        }
    }

    /// The state of the alias.
    pub fn state(&self) -> (r: Lww<Deletable<AliasParams>>)
        ensures
            r == self@.state,
    {
        self.state
    }

    /// The name that the alias gives.
    pub fn name(&self) -> (r: &str)
        ensures
            r@ == self@.name,
    {
        self.name.as_str()
    }

    /// The key by which the alias is placed in its table: all aliases stand
    /// in one partition.
    pub fn partition_key(&self) -> (r: EmptyKey)
        ensures
            r == EmptyKey,
    {
        EmptyKey
    }

    /// The key by which the alias is sorted in its table: its name.
    pub fn sort_key(&self) -> (r: &String)
        ensures
            r@ == self@.name,
    {
        &self.name
    }

    /// Takes in another state of the same alias.
    pub fn merge(&mut self, other: &BucketAlias)
        ensures
            final(self)@.name == old(self)@.name,
            final(self)@.state == merged_state(old(self)@.state, other@.state),
    {
        let a = self.state;
        let b = other.state;
        if a.ts < b.ts {
            self.state = b;
        } else if a.ts == b.ts {
            match (a.v, b.v) {
                (Deletable::Deleted, _) => {},
                (_, Deletable::Deleted) => {
                    self.state = b;
                },
                (Deletable::Present(x), Deletable::Present(y)) => {
                    if x.bucket_id.lt(&y.bucket_id) {
                        self.state = b;
                    }
                },
            }
        }
    }
}

impl BucketAliasTable {
    /// Whether an entry passes a filter.
    pub fn matches_filter(entry: &BucketAlias, filter: &DeletedFilter) -> (r: bool)
        ensures
            r == match *filter {
                DeletedFilter::Any => true,
                DeletedFilter::Deleted => entry@.state.v is Deleted,
                DeletedFilter::NotDeleted => !(entry@.state.v is Deleted),
            },
    {
        filter.apply(entry.is_deleted())
    }
}

} // verus!
