//! The headers of a request that stay with the object, and the headers of
//! the answer to a PUT.
use crate::data::Uuid;
use crate::encoding::{hex_text, hex_uuid};
use crate::error::{Error, ErrorView};
use crate::object::{HeaderList, HeadersView, ObjectVersionHeaders};
use crate::text::{has_prefix, starts_with, str_eq};
use vstd::prelude::*;

verus! {

/// One header of a request: its name in lower case, and the bytes of its
/// value.
#[derive(Debug, Clone, PartialEq, Eq)]
pub struct HeaderField {
    pub name: String,
    pub value: Vec<u8>,
}

/// The headers of a request, in the order in which they came.
#[derive(Debug, Clone, PartialEq, Eq)]
pub struct RequestHeaders {
    pub fields: Vec<HeaderField>,
}

/// Whether a byte of a header value can be shown: visible ASCII, a space or
/// a tab.
pub open spec fn is_visible(b: u8) -> bool {
    (32 <= b && b < 127) || b == 9
}

/// Whether every byte of a value can be shown.
pub open spec fn all_visible(value: Seq<u8>) -> bool {
    forall|i: int| 0 <= i < value.len() ==> is_visible(#[trigger] value[i])
}

/// The characters of a value of ASCII bytes.
pub open spec fn ascii_text(value: Seq<u8>) -> Seq<char> {
    value.map_values(|b: u8| b as char)
}

/// `http::HeaderValue::from_bytes` followed by `HeaderValue::to_str`: the
/// text of the value where all its bytes are visible ASCII, spaces or tabs,
/// and nothing otherwise.
#[verifier::external_body]
pub(crate) fn header_value_to_str(value: &[u8]) -> (r: Option<String>)
    ensures
        match r {
            Some(s) => all_visible(value@) && s@ == ascii_text(value@),
            None => !all_visible(value@),
        },
{
    http::HeaderValue::from_bytes(value).ok()?.to_str().ok().map(|s| s.to_string())
}

/// The message of the error for a value that is no text.
pub open spec fn not_text_message() -> Seq<char> {
    "failed to convert header to a str"@
}

/// The index of the first header of the name.
pub open spec fn first_index(fields: Seq<HeaderField>, name: Seq<char>) -> Option<int>
    decreases fields.len(),
{
    if fields.len() == 0 {
        None
    } else if fields[0].name@ == name {
        Some(0)
    } else {
        match first_index(fields.drop_first(), name) {
            Some(i) => Some(i + 1),
            None => None,
        }
    }
}

/// The value of the first header of the name.
pub open spec fn first_value(fields: Seq<HeaderField>, name: Seq<char>) -> Option<Seq<u8>> {
    match first_index(fields, name) {
        Some(i) => Some(fields[i].value@),
        None => None,
    }
}

proof fn lemma_first_index(fields: Seq<HeaderField>, name: Seq<char>, k: int)
    requires
        0 <= k <= fields.len(),
        forall|j: int| 0 <= j < k ==> (#[trigger] fields[j]).name@ != name,
        k < fields.len() ==> fields[k].name@ == name,
    ensures
        first_index(fields, name) == if k < fields.len() {
            Some(k)
        } else {
            None
        },
    decreases k,
{
    if k > 0 {
        let t = fields.drop_first();
        lemma_first_index(t, name, k - 1);
    }
}

/// The text of the first header of the name: none where the request has no
/// such header, an error where its value is no text.
pub open spec fn header_text(fields: Seq<HeaderField>, name: Seq<char>) -> Result<
    Option<Seq<char>>,
    ErrorView,
> {
    match first_value(fields, name) {
        None => Ok(None),
        Some(v) => if all_visible(v) {
            Ok(Some(ascii_text(v)))
        } else {
            Err(ErrorView::InvalidHeader(not_text_message()))
        },
    }
}

/// The content type of the request, `blob` where it names none.
pub open spec fn mime_type(fields: Seq<HeaderField>) -> Result<Seq<char>, ErrorView> {
    match header_text(fields, "content-type"@) {
        Ok(Some(t)) => Ok(t),
        Ok(None) => Ok("blob"@),
        Err(e) => Err(e),
    }
}

/// `m` with the first header of the name, where there is one whose value is
/// text.
pub open spec fn with_standard(
    m: Map<Seq<char>, Seq<char>>,
    fields: Seq<HeaderField>,
    name: Seq<char>,
) -> Map<Seq<char>, Seq<char>> {
    match header_text(fields, name) {
        Ok(Some(t)) => m.insert(name, t),
        _ => m,
    }
}

/// `m` with every header whose name starts with `x-amz-meta-` and whose
/// value is text; of several headers of one name the last.
pub open spec fn with_meta(m: Map<Seq<char>, Seq<char>>, fields: Seq<HeaderField>) -> Map<
    Seq<char>,
    Seq<char>,
>
    decreases fields.len(),
{
    if fields.len() == 0 {
        m
    } else {
        let before = with_meta(m, fields.drop_last());
        let f = fields.last();
        if has_prefix(f.name@, "x-amz-meta-"@) && all_visible(f.value@) {
            before.insert(f.name@, ascii_text(f.value@))
        } else {
            before
        }
    }
}

/// The headers that are kept beside the content type: the five standard
/// ones, then the user's own.
pub open spec fn kept_headers(fields: Seq<HeaderField>) -> Map<Seq<char>, Seq<char>> {
    let m0 = Map::<Seq<char>, Seq<char>>::empty();
    let m1 = with_standard(m0, fields, "cache-control"@);
    let m2 = with_standard(m1, fields, "content-disposition"@);
    let m3 = with_standard(m2, fields, "content-encoding"@);
    let m4 = with_standard(m3, fields, "content-language"@);
    let m5 = with_standard(m4, fields, "expires"@);
    with_meta(m5, fields)
}

/// The headers that stay with an object written by a request with these
/// headers.
pub open spec fn object_headers(fields: Seq<HeaderField>) -> Result<HeadersView, ErrorView> {
    match mime_type(fields) {
        Ok(t) => Ok(HeadersView { content_type: t, other: kept_headers(fields) }),
        Err(e) => Err(e),
    }
}

impl RequestHeaders {
    /// The value of the first header of the name.
    pub fn get(&self, name: &str) -> (r: Option<&Vec<u8>>)
        ensures
            match r {
                Some(v) => first_value(self.fields@, name@) == Some(v@),
                None => first_value(self.fields@, name@) is None,
            },
    {
        let mut i: usize = 0;
        while i < self.fields.len()
            invariant
                i <= self.fields@.len(),
                forall|j: int| 0 <= j < i ==> (#[trigger] self.fields@[j]).name@ != name@,
            decreases self.fields@.len() - i,
        {
            if str_eq(self.fields[i].name.as_str(), name) {
                proof {
                    lemma_first_index(self.fields@, name@, i as int);
                }
                return Some(&self.fields[i].value);
            }
            i = i + 1;
        }
        proof {
            lemma_first_index(self.fields@, name@, i as int);
        }
        None
    }

    /// The text of the first header of the name.
    pub fn get_text(&self, name: &str) -> (r: Result<Option<String>, Error>)
        ensures
            match r {
                Ok(Some(t)) => header_text(self.fields@, name@) == Ok::<
                    Option<Seq<char>>,
                    ErrorView,
                >(Some(t@)),
                Ok(None) => header_text(self.fields@, name@) == Ok::<Option<Seq<char>>, ErrorView>(
                    None,
                ),
                Err(e) => header_text(self.fields@, name@) == Err::<Option<Seq<char>>, ErrorView>(
                    e@,
                ),
            },
    {
        match self.get(name) {
            None => Ok(None),
            Some(v) => match header_value_to_str(v.as_slice()) {
                Some(t) => Ok(Some(t)),
                None => Err(
                    Error::InvalidHeader(String::from_str("failed to convert header to a str")),
                ),
            },
        }
    }
}

/// The content type that the request names, `blob` where it names none.
pub fn get_mime_type(headers: &RequestHeaders) -> (r: Result<String, Error>)
    ensures
        match r {
            Ok(t) => mime_type(headers.fields@) == Ok::<Seq<char>, ErrorView>(t@),
            Err(e) => mime_type(headers.fields@) == Err::<Seq<char>, ErrorView>(e@),
        },
{
    match headers.get_text("content-type") {
        Ok(Some(t)) => Ok(t),
        Ok(None) => Ok(String::from_str("blob")),
        Err(e) => Err(e),
    }
}

fn keep_standard(other: &mut HeaderList, headers: &RequestHeaders, name: &str)
    ensures
        final(other)@ == with_standard(old(other)@, headers.fields@, name@),
{
    match headers.get_text(name) {
        Ok(Some(t)) => {
            other.put(String::from_str(name), t);
        },
        _ => {},
    }
}

/// The headers of a request that stay with the object it writes: the
/// content type, the headers `cache-control`, `content-disposition`,
/// `content-encoding`, `content-language` and `expires`, and every header
/// whose name starts with `x-amz-meta-`. A header whose value is no text is
/// left out, but for the content type, where it is an error. The headers
/// that are kept stand in the order of their names, each name once; of
/// several headers of one name the last one stays.
pub fn get_headers(headers: &RequestHeaders) -> (r: Result<ObjectVersionHeaders, Error>)
    ensures
        match r {
            Ok(h) => object_headers(headers.fields@) == Ok::<HeadersView, ErrorView>(h@),
            Err(e) => object_headers(headers.fields@) == Err::<HeadersView, ErrorView>(e@),
        },
{
    let content_type = match get_mime_type(headers) {
        Ok(t) => t,
        Err(e) => {
            return Err(e);
        },
    };
    let mut other = HeaderList::new();
    keep_standard(&mut other, headers, "cache-control");
    keep_standard(&mut other, headers, "content-disposition");
    keep_standard(&mut other, headers, "content-encoding");
    keep_standard(&mut other, headers, "content-language");
    keep_standard(&mut other, headers, "expires");
    let ghost m5 = other@;
    let mut i: usize = 0;
    assert(headers.fields@.subrange(0, 0) =~= Seq::<HeaderField>::empty());
    while i < headers.fields.len()
        invariant
            i <= headers.fields@.len(),
            other@ == with_meta(m5, headers.fields@.subrange(0, i as int)),
        decreases headers.fields@.len() - i,
    {
        let f = &headers.fields[i];
        proof {
            let s = headers.fields@.subrange(0, i + 1);
            assert(s.drop_last() =~= headers.fields@.subrange(0, i as int));
            assert(s.last() == *f);
        }
        if starts_with(f.name.as_str(), "x-amz-meta-") {
            match header_value_to_str(f.value.as_slice()) {
                Some(t) => {
                    other.put(f.name.clone(), t);
                },
                None => {},
            }
        }
        i = i + 1;
    }
    assert(headers.fields@.subrange(0, i as int) =~= headers.fields@);
    Ok(ObjectVersionHeaders { content_type, other })
}

/// The headers of the answer to a PUT that wrote the version with the given
/// MD5 digest.
pub open spec fn put_response_headers(version_uuid: Uuid, md5sum_hex: Seq<char>) -> Seq<
    (Seq<char>, Seq<char>),
> {
    seq![
        ("x-amz-version-id"@, hex_text(version_uuid@)),
        ("ETag"@, seq!['"'] + md5sum_hex + seq!['"']),
    ]
}

/// The names and values of a list of headers.
pub open spec fn pairs_view(s: Seq<(String, String)>) -> Seq<(Seq<char>, Seq<char>)> {
    s.map_values(|p: (String, String)| (p.0@, p.1@))
}

/// An ETag between double quotes.
pub fn quoted(etag: &str) -> (r: String)
    ensures
        r@ == seq!['"'] + etag@ + seq!['"'],
{
    proof {
        reveal_strlit("\"");
    }
    let mut s = String::from_str("\"");
    s.append(etag);
    s.append("\"");
    s
}

/// The headers of the answer to a PUT: the version in `x-amz-version-id`,
/// and the quoted MD5 digest in `ETag`. The body of the answer is empty.
pub fn put_response(version_uuid: Uuid, md5sum_hex: &str) -> (r: Vec<(String, String)>)
    ensures
        pairs_view(r@) == put_response_headers(version_uuid, md5sum_hex@),
{
    let mut r: Vec<(String, String)> = Vec::new();
    r.push((String::from_str("x-amz-version-id"), hex_uuid(&version_uuid)));
    r.push((String::from_str("ETag"), quoted(md5sum_hex)));
    r
}

} // verus!
