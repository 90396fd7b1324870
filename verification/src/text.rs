//! Text in foreign formats: stored blobs, cookies and addresses.
use vstd::prelude::*;
use vstd::utf8::{decode_utf8, encode_utf8, valid_utf8};

verus! {

// ---- UTF-8 ----------------------------------------------------------------------------------

/// `core::str::Utf8Error`, which says where bytes cease to be UTF-8. Nothing is claimed of it.
#[verifier::external_type_specification]
#[verifier::external_body]
pub struct ExUtf8Error(core::str::Utf8Error);

/// `core::str::from_utf8`: succeeds if and only if the bytes are UTF-8, and then yields the text
/// that they encode.
pub assume_specification<'a>[ core::str::from_utf8 ](v: &'a [u8]) -> (r: Result<
    &'a str,
    core::str::Utf8Error,
>)
    ensures
        r is Ok <==> valid_utf8(v@),
        r matches Ok(s) ==> s@ == decode_utf8(v@),
;

/// The text that a stored blob holds, if it holds text.
pub open spec fn blob_text(blob: Seq<u8>) -> Option<Seq<char>> {
    if valid_utf8(blob) {
        Some(decode_utf8(blob))
    } else {
        None
    }
}

/// Reads a stored blob as text.
pub fn stored_text(blob: &Vec<u8>) -> (r: Option<String>)
    ensures
        (match r { Some(s) => Some(s@), None => None }) == blob_text(blob@),
{
    match core::str::from_utf8(blob.as_slice()) {
        Ok(s) => Some(s.to_owned()),
        Err(_) => None,
    }
}

/// Text that was stored as its UTF-8 bytes is read back unchanged.
pub proof fn stored_text_reads_back(text: Seq<char>)
    ensures
        blob_text(encode_utf8(text)) == Some(text),
{
    vstd::utf8::encode_utf8_valid_utf8(text);
    vstd::utf8::encode_utf8_decode_utf8(text);
}

// ---- Cookies --------------------------------------------------------------------------------

/// `cookie::ParseError`, the reason why a text is no cookie. Nothing is claimed of it.
#[verifier::external_type_specification]
#[verifier::external_body]
pub struct ExCookieParseError(cookie::ParseError);

/// What `cookie::Cookie::parse` makes of a text, rendered as a `Set-Cookie` header value; `None`
/// where it refuses the text.
pub uninterp spec fn cookie_text(text: Seq<char>) -> Option<Seq<char>>;

/// Does a word of small letters stand at position `i`, in whatever case?
pub open spec fn word_at(text: Seq<char>, i: int, word: Seq<char>) -> bool {
    &&& 0 <= i
    &&& i + word.len() <= text.len()
    &&& forall|k: int|
        0 <= k < word.len() ==> #[trigger] text[i + k] == word[k] || text[i + k] as int + 32
            == word[k] as int
}

/// Does a word stand anywhere after a `;`, where attributes are named?
pub open spec fn names_attribute(text: Seq<char>, word: Seq<char>) -> bool {
    exists|i: int| #[trigger] word_at(text, i, word) && text.take(i).contains(';')
}

/// Does a cookie in header form have no domain, or one that begins with a visible ASCII character
/// other than a dot?
pub open spec fn domain_stays(header: Seq<char>) -> bool {
    let mark = "; Domain="@;
    forall|i: int|
        0 <= i <= header.len() - mark.len() && #[trigger] header.subrange(i, i + mark.len()) == mark
            ==> {
            &&& i + mark.len() < header.len()
            &&& 33 <= header[i + mark.len()] as int <= 126
            &&& header[i + mark.len()] != '.'
            &&& header[i + mark.len()] != ';'
        }
}

/// `cookie::Cookie::parse`, its result rendered by the cookie's `Display`. The result depends on
/// the text alone; a text without `=` has no name/value pair and is refused. The rendering begins with
/// the name, which is not empty, `=` and the value, neither of which holds a `;`, so it is itself
/// parsed. Parsed and rendered once more it is the same again, if there is no date of expiry, and no
/// domain that the second parse would shorten or pass over. Nothing is said of dates of expiry.
#[verifier::external_body]
fn parse_cookie(text: &str) -> (r: Result<String, cookie::ParseError>)
    ensures
        (match r { Ok(s) => Some(s@), Err(_) => None }) == cookie_text(text@),
        !text@.contains('=') ==> r is Err,
        r matches Ok(s) ==> cookie_text(s@) is Some,
        r matches Ok(s) ==> !names_attribute(text@, "expires"@) && domain_stays(s@)
            ==> cookie_text(s@) == Some(s@),
{
    match cookie::Cookie::parse(text) {
        Ok(c) => Ok(c.to_string()),
        Err(e) => Err(e),
    }
}

/// A cookie, in the form of a `Set-Cookie` header value.
#[derive(Debug)]
pub struct Cookie {
    text: String,
}

impl View for Cookie {
    type V = Seq<char>;

    closed spec fn view(&self) -> Seq<char> {
        self.text@
    }
}

impl Cookie {
    /// Parses a `Set-Cookie` header value. The form that it is brought into can be parsed again, and
    /// is the same again where there is no date of expiry and the domain stays.
    pub fn parse(text: &str) -> (r: Option<Cookie>)
        ensures
            (match r { Some(c) => Some(c@), None => None }) == cookie_text(text@),
            !text@.contains('=') ==> r is None,
            r matches Some(c) ==> cookie_text(c@) is Some,
            r matches Some(c) ==> !names_attribute(text@, "expires"@) && domain_stays(c@)
                ==> cookie_text(c@) == Some(c@),
    {
        match parse_cookie(text) {
            Ok(text) => Some(Cookie { text }),
            Err(_) => None,
        }
    }

    #[verifier::type_invariant]
    spec fn is_cookie(self) -> bool {
        cookie_text(self.text@) is Some
    }

    /// The cookie as a `Set-Cookie` header value, which can be parsed again.
    pub fn text(&self) -> (r: &str)
        ensures
            r@ == self@,
            cookie_text(r@) is Some,
    {
        proof {
            use_type_invariant(self);
        }
        self.text.as_str()
    }
}

/// The cookie that a stored blob holds, if it holds one.
pub open spec fn blob_cookie(blob: Seq<u8>) -> Option<Seq<char>> {
    match blob_text(blob) {
        Some(text) => cookie_text(text),
        None => None,
    }
}

/// Reads a stored blob as a cookie.
pub fn stored_cookie(blob: &Vec<u8>) -> (r: Option<Cookie>)
    ensures
        (match r { Some(c) => Some(c@), None => None }) == blob_cookie(blob@),
{
    match stored_text(blob) {
        Some(text) => Cookie::parse(text.as_str()),
        None => None,
    }
}

// ---- Addresses ------------------------------------------------------------------------------

/// `url::ParseError`, the reason why a text is no URL. Nothing is claimed of it.
#[verifier::external_type_specification]
#[verifier::external_body]
pub struct ExUrlParseError(url::ParseError);

/// The serialization of the URL that `url::Url::parse` makes of a text; `None` where it refuses
/// the text.
pub uninterp spec fn url_text(text: Seq<char>) -> Option<Seq<char>>;

/// What `url::Url::domain` returns for the URL that a text denotes; `None` also where the text
/// denotes none.
pub uninterp spec fn url_domain(text: Seq<char>) -> Option<Seq<char>>;

/// What `url::Url::host_str` returns for the URL that a text denotes; `None` also where the text
/// denotes none.
pub uninterp spec fn url_host(text: Seq<char>) -> Option<Seq<char>>;

/// The serialization of the URL that a text denotes, with a name and a value appended to its query
/// by `append_pair` of `url::Url::query_pairs_mut`.
pub uninterp spec fn url_with_pair(text: Seq<char>, name: Seq<char>, value: Seq<char>) -> Seq<char>;

/// The number of characters that a host is read with, whatever they are.
pub const MANY: u128 = 3800;

/// Bytes that mark a place in a URL.
#[derive(Clone, Copy)]
pub enum Mark {
    /// The end of the scheme.
    Colon,
    /// The end of the slashes and backslashes, among which tabs and ends of lines are passed over.
    NoSlash,
    /// The same, if a backslash is no slash.
    NoForwardSlash,
    /// The end of the authority, if a backslash is a slash.
    AuthorityEnd,
    /// The same, if it is not.
    OpaqueEnd,
    /// The query, or the fragment where there is no query.
    Query,
    Fragment,
}

/// Does a byte make the mark?
pub open spec fn makes(m: Mark, b: u8) -> bool {
    match m {
        Mark::Colon => b == 58,
        Mark::NoSlash => b != 47 && b != 92 && b != 9 && b != 10 && b != 13,
        Mark::NoForwardSlash => b != 47 && b != 9 && b != 10 && b != 13,
        Mark::AuthorityEnd => b == 47 || b == 92 || b == 63 || b == 35,
        Mark::OpaqueEnd => b == 47 || b == 63 || b == 35,
        Mark::Query => b == 63 || b == 35,
        Mark::Fragment => b == 35,
    }
}

/// The position of the first byte from `i` on that makes the mark; the number of bytes where none
/// does.
pub open spec fn position(b: Seq<u8>, i: int, m: Mark) -> int
    decreases b.len() - i,
{
    if i >= b.len() {
        b.len() as int
    } else if makes(m, b[i]) {
        i
    } else {
        position(b, i + 1, m)
    }
}

/// Finds the first byte from `from` on that makes the mark.
fn find(b: &[u8], from: usize, m: Mark) -> (r: usize)
    requires
        from <= b@.len(),
    ensures
        r == position(b@, from as int, m),
        from <= r <= b@.len(),
{
    let mut i: usize = from;
    while i < b.len()
        invariant
            from <= i <= b@.len(),
            position(b@, i as int, m) == position(b@, from as int, m),
        decreases b@.len() - i,
    {
        let c: u8 = b[i];
        let made = match m {
            Mark::Colon => c == 58,
            Mark::NoSlash => c != 47 && c != 92 && c != 9 && c != 10 && c != 13,
            Mark::NoForwardSlash => c != 47 && c != 9 && c != 10 && c != 13,
            Mark::AuthorityEnd => c == 47 || c == 92 || c == 63 || c == 35,
            Mark::OpaqueEnd => c == 47 || c == 63 || c == 35,
            Mark::Query => c == 63 || c == 35,
            Mark::Fragment => c == 35,
        };
        if made {
            return i;
        }
        i = i + 1;
    }
    i
}

/// The query begins no later than the fragment.
proof fn query_comes_first(b: Seq<u8>, i: int)
    ensures
        position(b, i, Mark::Query) <= position(b, i, Mark::Fragment),
    decreases b.len() - i,
{
    if i < b.len() && !makes(Mark::Query, b[i]) {
        query_comes_first(b, i + 1);
    } else if i < b.len() && !makes(Mark::Fragment, b[i]) {
        position_is_ahead(b, i + 1, Mark::Fragment);
    }
}

proof fn position_is_ahead(b: Seq<u8>, i: int, m: Mark)
    requires
        i <= b.len(),
    ensures
        i <= position(b, i, m) <= b.len(),
    decreases b.len() - i,
{
    if i < b.len() && !makes(m, b[i]) {
        position_is_ahead(b, i + 1, m);
    }
}

/// How the crate reads what follows a scheme.
#[derive(Clone, Copy)]
pub enum Scheme {
    /// After any number of slashes and backslashes comes a user or a host, which is a domain name or
    /// an address.
    Web,
    /// After two slashes or backslashes comes such a host, without a user.
    File,
    /// After two slashes comes a user or a host, which is left as it is.
    Other,
}

/// The bytes in small letters, without blanks and control characters.
pub open spec fn bare(b: Seq<u8>) -> Seq<u8>
    decreases b.len(),
{
    if b.len() == 0 {
        b
    } else {
        let before = bare(b.drop_last());
        let c = b.last();
        if c <= 32 {
            before
        } else if 65 <= c <= 90 {
            before.push((c + 32) as u8)
        } else {
            before.push(c)
        }
    }
}

/// The kind of a scheme: `http`, `https`, `ws`, `wss`, `ftp` and `gopher`; `file`; or another one.
pub open spec fn scheme(name: Seq<u8>) -> Scheme {
    if name == seq![104u8, 116, 116, 112] || name == seq![104u8, 116, 116, 112, 115] || name
        == seq![119u8, 115] || name == seq![119u8, 115, 115] || name == seq![102u8, 116, 112]
        || name == seq![103u8, 111, 112, 104, 101, 114] {
        Scheme::Web
    } else if name == seq![102u8, 105, 108, 101] {
        Scheme::File
    } else {
        Scheme::Other
    }
}

/// The number of slashes and backslashes from position `i` up to position `j`.
pub open spec fn slashes(b: Seq<u8>, i: int, j: int) -> nat
    decreases j - i,
{
    if i >= j {
        0
    } else {
        slashes(b, i, j - 1) + (if b[j - 1] == 47 || b[j - 1] == 92 {
            1nat
        } else {
            0
        })
    }
}

/// The position after the last `@` from position `i` up to position `j`; `i` where there is none.
pub open spec fn host_start(b: Seq<u8>, i: int, j: int) -> int
    decreases j - i,
{
    if i >= j {
        i
    } else if b[j - 1] == 64 {
        j
    } else {
        host_start(b, i, j - 1)
    }
}

/// The number of characters that a host can come to at most. A byte that is not ASCII is part of a
/// character that stands for up to six times as many characters as it has bytes; a `%` and the two
/// digits after it can be such a byte.
pub open spec fn bulk(b: Seq<u8>) -> nat
    decreases b.len(),
{
    if b.len() == 0 {
        0
    } else {
        bulk(b.drop_last()) + (if b.last() >= 128 || b.last() == 37 {
            6nat
        } else {
            1
        })
    }
}

/// Is the byte part of a host as it is: ASCII other than `%`, a tab or the end of a line?
pub open spec fn is_plain_byte(b: u8) -> bool {
    b < 128 && b != 37 && b != 9 && b != 10 && b != 13
}

/// Does `xn--`, in whatever case, stand at position `i`?
pub open spec fn is_ace_prefix(b: Seq<u8>, i: int) -> bool {
    &&& i + 4 <= b.len()
    &&& b[i] == 120 || b[i] == 88
    &&& b[i + 1] == 110 || b[i + 1] == 78
    &&& b[i + 2] == 45
    &&& b[i + 3] == 45
}

/// Does a host need no conversion from or to Unicode?
pub open spec fn is_plain(b: Seq<u8>) -> bool {
    forall|i: int|
        0 <= i < b.len() ==> is_plain_byte(#[trigger] b[i]) && !is_ace_prefix(b, i)
}

/// Can a host be converted? The crate writes the Unicode labels of a domain name in ASCII with a `u32`
/// that overflows where a label has more than some 3850 characters.
pub open spec fn is_convertible(host: Seq<u8>) -> bool {
    bulk(host) <= MANY || is_plain(host)
}

/// Can the text be read as a URL? Beside the conversion of the host, the crate counts the slashes
/// before the authority of a web address in a `u32`, and the characters in which it looks for a user
/// in an `i32`, and panics where they overflow. There are no more characters than bytes.
pub open spec fn readable(text: Seq<char>) -> bool {
    let b = encode_utf8(text);
    let colon = position(b, 0, Mark::Colon);
    let start = colon + 1;
    let first = position(b, start, Mark::NoSlash);
    let end = position(b, first, Mark::AuthorityEnd);
    match scheme(bare(b.take(colon))) {
        Scheme::Web => {
            &&& slashes(b, start, first) <= u32::MAX
            &&& end - first <= i32::MAX
            &&& is_convertible(b.subrange(host_start(b, first, end), end))
        },
        Scheme::File => {
            slashes(b, start, first) == 2 ==> is_convertible(b.subrange(first, end))
        },
        Scheme::Other => {
            let open = position(b, start, Mark::NoForwardSlash);
            slashes(b, start, open) == 2 ==> position(b, open, Mark::OpaqueEnd) - open <= i32::MAX
        },
    }
}

/// A position is that of the first byte that makes the mark.
pub proof fn position_is_the_first(b: Seq<u8>, i: int, m: Mark, k: int)
    requires
        0 <= i <= b.len(),
    ensures
        i <= position(b, i, m) <= b.len(),
        position(b, i, m) < b.len() ==> makes(m, b[position(b, i, m)]),
        i <= k < position(b, i, m) ==> !makes(m, b[k]),
    decreases b.len() - i,
{
    if i < b.len() && !makes(m, b[i]) {
        position_is_the_first(b, i + 1, m, k);
    }
}

/// A host starts after the last `@`, or where it may start at the earliest.
pub proof fn host_starts_after_the_last_at(b: Seq<u8>, i: int, j: int, k: int)
    requires
        0 <= i <= j <= b.len(),
    ensures
        i <= host_start(b, i, j) <= j,
        host_start(b, i, j) > i ==> b[host_start(b, i, j) - 1] == 64,
        host_start(b, i, j) <= k < j ==> b[k] != 64,
    decreases j - i,
{
    if i < j && b[j - 1] != 64 {
        host_starts_after_the_last_at(b, i, j - 1, k);
    }
}

proof fn slashes_are_bytes(b: Seq<u8>, i: int, j: int)
    requires
        i <= j,
    ensures
        slashes(b, i, j) <= j - i,
    decreases j - i,
{
    if i < j {
        slashes_are_bytes(b, i, j - 1);
    }
}

proof fn bulk_is_bounded(b: Seq<u8>)
    ensures
        bulk(b) <= 6 * b.len(),
    decreases b.len(),
{
    if b.len() > 0 {
        bulk_is_bounded(b.drop_last());
    }
}

/// Where the authority of an address is, and its host; all of these lie within the text.
proof fn parts_lie_within(b: Seq<u8>)
    ensures
        ({
            let start = position(b, 0, Mark::Colon) + 1;
            let first = position(b, start, Mark::NoSlash);
            let open = position(b, start, Mark::NoForwardSlash);
            let end = position(b, first, Mark::AuthorityEnd);
            let far = position(b, open, Mark::OpaqueEnd);
            &&& 0 <= first <= end <= b.len()
            &&& first <= host_start(b, first, end) <= end
            &&& slashes(b, start, first) <= b.len()
            &&& 0 <= open <= far <= b.len()
        }),
{
    position_is_the_first(b, 0, Mark::Colon, 0);
    let start = position(b, 0, Mark::Colon) + 1;
    if start <= b.len() {
        position_is_the_first(b, start, Mark::NoSlash, 0);
        position_is_the_first(b, start, Mark::NoForwardSlash, 0);
        slashes_are_bytes(b, start, position(b, start, Mark::NoSlash));
    }
    let first = position(b, start, Mark::NoSlash);
    position_is_the_first(b, first, Mark::AuthorityEnd, 0);
    position_is_the_first(b, position(b, start, Mark::NoForwardSlash), Mark::OpaqueEnd, 0);
    host_starts_after_the_last_at(b, first, position(b, first, Mark::AuthorityEnd), 0);
}

/// Every text of up to 633 bytes can be read, whatever it holds.
pub proof fn short_text_is_readable(text: Seq<char>)
    requires
        encode_utf8(text).len() <= 633,
    ensures
        readable(text),
{
    let b = encode_utf8(text);
    parts_lie_within(b);
    let start = position(b, 0, Mark::Colon) + 1;
    let first = position(b, start, Mark::NoSlash);
    let end = position(b, first, Mark::AuthorityEnd);
    bulk_is_bounded(b.subrange(host_start(b, first, end), end));
    bulk_is_bounded(b.subrange(first, end));
}

/// Every text of up to 2147483647 bytes can be read that is ASCII without `%`, tabs and ends of lines,
/// and has no `xn--` in it.
pub proof fn plain_text_is_readable(text: Seq<char>)
    requires
        encode_utf8(text).len() <= 0x7fff_ffff,
        is_plain(encode_utf8(text)),
    ensures
        readable(text),
{
    let b = encode_utf8(text);
    parts_lie_within(b);
    let start = position(b, 0, Mark::Colon) + 1;
    let first = position(b, start, Mark::NoSlash);
    let end = position(b, first, Mark::AuthorityEnd);
    part_of_plain_is_plain(b, host_start(b, first, end), end);
    part_of_plain_is_plain(b, first, end);
}

proof fn part_of_plain_is_plain(b: Seq<u8>, i: int, j: int)
    requires
        0 <= i <= j <= b.len(),
        is_plain(b),
    ensures
        is_plain(b.subrange(i, j)),
{
    let a = b.subrange(i, j);
    assert forall|k: int| 0 <= k < a.len() implies is_plain_byte(#[trigger] a[k])
        && !is_ace_prefix(a, k) by {
        assert(a[k] == b[i + k]);
        if is_ace_prefix(a, k) {
            assert(is_ace_prefix(b, i + k));
        }
    }
}

/// Finds out how what follows a scheme is read. The scheme is what precedes position `colon`.
fn find_scheme(b: &[u8], colon: usize) -> (r: Scheme)
    requires
        colon <= b@.len(),
    ensures
        r == scheme(bare(b@.take(colon as int))),
{
    let mut name: Vec<u8> = Vec::new();
    let mut i: usize = 0;
    while i < colon
        invariant
            i <= colon <= b@.len(),
            name@ == bare(b@.take(i as int)),
        decreases colon - i,
    {
        let c: u8 = b[i];
        assert(b@.take(i + 1).drop_last() =~= b@.take(i as int));
        if c > 32 {
            name.push(
                if 65 <= c && c <= 90 {
                    c + 32
                } else {
                    c
                },
            );
        }
        i = i + 1;
    }
    if is_web(&name) {
        Scheme::Web
    } else if name.len() == 4 && name[0] == 102 && name[1] == 105 && name[2] == 108 && name[3]
        == 101 {
        assert(name@ =~= seq![102u8, 105, 108, 101]);
        Scheme::File
    } else {
        Scheme::Other
    }
}

fn is_web(s: &Vec<u8>) -> (r: bool)
    ensures
        r == (scheme(s@) is Web),
{
    let n: usize = s.len();
    if n == 2 && s[0] == 119 && s[1] == 115 {
        assert(s@ =~= seq![119u8, 115]);
        true
    } else if n == 3 && s[0] == 119 && s[1] == 115 && s[2] == 115 {
        assert(s@ =~= seq![119u8, 115, 115]);
        true
    } else if n == 3 && s[0] == 102 && s[1] == 116 && s[2] == 112 {
        assert(s@ =~= seq![102u8, 116, 112]);
        true
    } else if n == 4 && s[0] == 104 && s[1] == 116 && s[2] == 116 && s[3] == 112 {
        assert(s@ =~= seq![104u8, 116, 116, 112]);
        true
    } else if n == 5 && s[0] == 104 && s[1] == 116 && s[2] == 116 && s[3] == 112 && s[4] == 115 {
        assert(s@ =~= seq![104u8, 116, 116, 112, 115]);
        true
    } else if n == 6 && s[0] == 103 && s[1] == 111 && s[2] == 112 && s[3] == 104 && s[4] == 101
        && s[5] == 114 {
        assert(s@ =~= seq![103u8, 111, 112, 104, 101, 114]);
        true
    } else {
        false
    }
}

/// Counts slashes and backslashes.
fn count_slashes(b: &[u8], i: usize, j: usize) -> (r: usize)
    requires
        i <= j <= b@.len(),
    ensures
        r == slashes(b@, i as int, j as int),
{
    let mut k: usize = i;
    let mut n: usize = 0;
    while k < j
        invariant
            i <= k <= j <= b@.len(),
            n == slashes(b@, i as int, k as int),
            n <= k - i,
        decreases j - k,
    {
        if b[k] == 47 || b[k] == 92 {
            n = n + 1;
        }
        k = k + 1;
    }
    n
}

/// Does the host from position `first` up to position `end` need no conversion?
fn has_plain(b: &[u8], first: usize, end: usize) -> (r: bool)
    requires
        first <= end <= b@.len(),
    ensures
        r == is_plain(b@.subrange(first as int, end as int)),
{
    let ghost a = b@.subrange(first as int, end as int);
    let mut i: usize = first;
    while i < end
        invariant
            first <= i <= end <= b@.len(),
            a == b@.subrange(first as int, end as int),
            forall|k: int|
                0 <= k < i - first ==> is_plain_byte(#[trigger] a[k]) && !is_ace_prefix(a, k),
        decreases end - i,
    {
        let c: u8 = b[i];
        assert(a[i - first] == c);
        if c >= 128 || c == 37 || c == 9 || c == 10 || c == 13 {
            return false;
        }
        if end - i >= 4 && (c == 120 || c == 88) && (b[i + 1] == 110 || b[i + 1] == 78) && b[i + 2]
            == 45 && b[i + 3] == 45 {
            assert(is_ace_prefix(a, i - first));
            return false;
        }
        i = i + 1;
    }
    true
}

/// Can the host from position `first` up to position `end` be converted?
fn can_convert(b: &[u8], first: usize, end: usize) -> (r: bool)
    requires
        first <= end <= b@.len(),
    ensures
        r == is_convertible(b@.subrange(first as int, end as int)),
{
    let ghost a = b@.subrange(first as int, end as int);
    let mut i: usize = first;
    let mut size: u128 = 0;
    while i < end
        invariant
            first <= i <= end <= b@.len(),
            a == b@.subrange(first as int, end as int),
            size == bulk(a.take(i - first)),
            size <= 6 * (i - first),
        decreases end - i,
    {
        let c: u8 = b[i];
        assert(a.take(i + 1 - first).drop_last() =~= a.take(i - first));
        assert(a.take(i + 1 - first).last() == c);
        if c >= 128 || c == 37 {
            size = size + 6;
        } else {
            size = size + 1;
        }
        i = i + 1;
    }
    assert(a.take(end - first) =~= a);
    size <= MANY || has_plain(b, first, end)
}

/// Finds the position after the last `@`.
fn find_host(b: &[u8], i: usize, j: usize) -> (r: usize)
    requires
        i <= j <= b@.len(),
    ensures
        r == host_start(b@, i as int, j as int),
        i <= r <= j,
{
    let mut k: usize = j;
    while k > i
        invariant
            i <= k <= j <= b@.len(),
            host_start(b@, i as int, k as int) == host_start(b@, i as int, j as int),
        decreases k,
    {
        if b[k - 1] == 64 {
            return k;
        }
        k = k - 1;
    }
    k
}

/// Can the text be read as a URL?
pub fn is_readable(text: &str) -> (r: bool)
    ensures
        r == readable(text@),
{
    let b: &[u8] = text.as_bytes();
    let colon: usize = find(b, 0, Mark::Colon);
    if colon == b.len() {
        assert(is_convertible(Seq::<u8>::empty()));
        assert(b@.subrange(colon as int, colon as int) =~= Seq::<u8>::empty());
        return true;
    }
    let start: usize = colon + 1;
    match find_scheme(b, colon) {
        Scheme::Web => {
            let first: usize = find(b, start, Mark::NoSlash);
            let end: usize = find(b, first, Mark::AuthorityEnd);
            count_slashes(b, start, first) <= u32::MAX as usize && end - first <= i32::MAX as usize
                && can_convert(b, find_host(b, first, end), end)
        },
        Scheme::File => {
            let first: usize = find(b, start, Mark::NoSlash);
            let end: usize = find(b, first, Mark::AuthorityEnd);
            count_slashes(b, start, first) != 2 || can_convert(b, first, end)
        },
        Scheme::Other => {
            let open: usize = find(b, start, Mark::NoForwardSlash);
            let end: usize = find(b, open, Mark::OpaqueEnd);
            count_slashes(b, start, open) != 2 || end - open <= i32::MAX as usize
        },
    }
}

/// `url::Url::parse`, its result serialized. The result depends on the text alone. It panics on some
/// texts that are not readable.
#[verifier::external_body]
fn parse_url(text: &str) -> (r: Result<String, url::ParseError>)
    requires
        readable(text@),
    ensures
        (match r { Ok(s) => Some(s@), Err(_) => None }) == url_text(text@),
{
    match url::Url::parse(text) {
        Ok(u) => Ok(u.into_string()),
        Err(e) => Err(e),
    }
}

/// `url::Url::domain` of the URL that the text denotes. The result depends on the text alone; a
/// text that denotes no URL has no domain. The text is parsed first, so it has to be readable.
#[verifier::external_body]
fn domain_of(text: &str) -> (r: Option<String>)
    requires
        readable(text@),
    ensures
        (match r { Some(s) => Some(s@), None => None }) == url_domain(text@),
        r is Some ==> url_text(text@) is Some,
{
    match url::Url::parse(text) {
        Ok(u) => u.domain().map(String::from),
        Err(_) => None,
    }
}

/// `url::Url::host_str` of the URL that the text denotes. The result depends on the text alone; a
/// text that denotes no URL has no host. The text is parsed first, so it has to be readable.
#[verifier::external_body]
fn host_of(text: &str) -> (r: Option<String>)
    requires
        readable(text@),
    ensures
        (match r { Some(s) => Some(s@), None => None }) == url_host(text@),
        r is Some ==> url_text(text@) is Some,
{
    match url::Url::parse(text) {
        Ok(u) => u.host_str().map(String::from),
        Err(_) => None,
    }
}

/// The number of bytes that a byte of a name or a value takes in a query: letters, digits, `*`, `-`,
/// `.` and `_` stand for themselves and a space becomes a `+`; any other byte takes three.
pub open spec fn form_size(b: u8) -> nat {
    if b == 32 || b == 42 || b == 45 || b == 46 || 48 <= b <= 57 || 65 <= b <= 90 || b == 95 || 97
        <= b <= 122 {
        1
    } else {
        3
    }
}

/// The number of bytes that a name or a value takes in a query.
pub open spec fn form_len(b: Seq<u8>) -> nat
    decreases b.len(),
{
    if b.len() == 0 {
        0
    } else {
        form_len(b.drop_last()) + form_size(b.last())
    }
}

/// May a pair be appended to the query of a URL, given as its serialization? The crate counts the
/// bytes before the query and before the fragment in a `u32` and panics where they do not fit. A pair
/// begins a query with a `?` or follows one with a `&`, and holds a `=`.
pub open spec fn pair_fits(url: Seq<char>, name: Seq<char>, value: Seq<char>) -> bool {
    let b = encode_utf8(url);
    let cut = position(b, 0, Mark::Fragment);
    let query = position(b, 0, Mark::Query);
    let mark: int = if query + 1 == cut {
        0
    } else {
        1
    };
    &&& query == cut ==> cut <= u32::MAX
    &&& cut < b.len() ==> cut + mark + form_len(encode_utf8(name)) + 1 + form_len(
        encode_utf8(value),
    ) <= u32::MAX
}

proof fn form_is_bounded(b: Seq<u8>)
    ensures
        form_len(b) <= 3 * b.len(),
    decreases b.len(),
{
    if b.len() > 0 {
        form_is_bounded(b.drop_last());
    }
}

/// A pair may be appended to a URL where all of it is shorter than a gigabyte.
pub proof fn short_pair_fits(url: Seq<char>, name: Seq<char>, value: Seq<char>)
    requires
        encode_utf8(url).len() + encode_utf8(name).len() + encode_utf8(value).len() < 0x4000_0000,
    ensures
        pair_fits(url, name, value),
{
    let b = encode_utf8(url);
    position_is_the_first(b, 0, Mark::Fragment, 0);
    position_is_the_first(b, 0, Mark::Query, 0);
    form_is_bounded(encode_utf8(name));
    form_is_bounded(encode_utf8(value));
}

/// Counts the bytes that a name or a value takes in a query.
fn count_form(text: &str) -> (r: u128)
    ensures
        r == form_len(encode_utf8(text@)),
        r <= 3 * usize::MAX,
{
    let b: &[u8] = text.as_bytes();
    let n: usize = b.len();
    let mut i: usize = 0;
    let mut size: u128 = 0;
    while i < n
        invariant
            n == b@.len(),
            i <= n,
            size == form_len(b@.take(i as int)),
            size <= 3 * i,
        decreases n - i,
    {
        let c: u8 = b[i];
        assert(b@.take(i + 1).drop_last() =~= b@.take(i as int));
        if c == 32 || c == 42 || c == 45 || c == 46 || (48 <= c && c <= 57) || (65 <= c && c <= 90)
            || c == 95 || (97 <= c && c <= 122) {
            size = size + 1;
        } else {
            size = size + 3;
        }
        i = i + 1;
    }
    assert(b@.take(n as int) =~= b@);
    size
}

/// May a pair be appended to the query of a URL, given as its serialization?
fn can_take_pair(url: &str, name: &str, value: &str) -> (r: bool)
    ensures
        r == pair_fits(url@, name@, value@),
{
    let b: &[u8] = url.as_bytes();
    let n: usize = b.len();
    let query: usize = find(b, 0, Mark::Query);
    let cut: usize = find(b, 0, Mark::Fragment);
    proof {
        query_comes_first(b@, 0);
    }
    let mark: u128 = if cut - query == 1 {
        0
    } else {
        1
    };
    if query == cut && cut > u32::MAX as usize {
        return false;
    }
    cut == n || cut as u128 + mark + count_form(name) + 1 + count_form(value) <= u32::MAX as u128
}

/// `append_pair` of `url::Url::query_pairs_mut` on the URL that the text denotes. The result
/// depends on the arguments alone. The text is parsed first, so it has to be readable.
#[verifier::external_body]
fn append_pair(text: &str, name: &str, value: &str) -> (r: String)
    requires
        readable(text@),
        url_text(text@) matches Some(u) && pair_fits(u, name@, value@),
    ensures
        r@ == url_with_pair(text@, name@, value@),
{
    let mut u = url::Url::parse(text).unwrap();
    u.query_pairs_mut().append_pair(name, value);
    u.into_string()
}

/// What an address is good for.
pub enum Endpoint {
    /// It is no URL, or one that cannot be read or is too long to be added to.
    Invalid,
    /// It is a URL whose host is not a domain name.
    NoDomain,
    /// Where to connect to, and the domain that has to answer.
    At { url: String, domain: String },
}

/// The mathematical form of an [`Endpoint`].
pub enum EndpointView {
    Invalid,
    NoDomain,
    At { url: Seq<char>, domain: Seq<char> },
}

impl View for Endpoint {
    type V = EndpointView;

    open spec fn view(&self) -> EndpointView {
        match *self {
            Endpoint::Invalid => EndpointView::Invalid,
            Endpoint::NoDomain => EndpointView::NoDomain,
            Endpoint::At { url, domain } => EndpointView::At { url: url@, domain: domain@ },
        }
    }
}

/// The endpoint for a URL and the domain found in it.
pub open spec fn endpoint(url: Option<Seq<char>>, domain: Option<Seq<char>>) -> EndpointView {
    match (url, domain) {
        (None, _) => EndpointView::Invalid,
        (Some(_), None) => EndpointView::NoDomain,
        (Some(url), Some(domain)) => EndpointView::At { url, domain },
    }
}

/// Makes an endpoint of a URL and the domain found in it.
pub fn endpoint_of(url: Option<String>, domain: Option<String>) -> (r: Endpoint)
    ensures
        r@ == endpoint(
            match url { Some(s) => Some(s@), None => None },
            match domain { Some(s) => Some(s@), None => None },
        ),
{
    match (url, domain) {
        (None, _) => Endpoint::Invalid,
        (Some(_), None) => Endpoint::NoDomain,
        (Some(url), Some(domain)) => Endpoint::At { url, domain },
    }
}

/// The endpoint that an address denotes.
pub open spec fn address_endpoint(text: Seq<char>) -> EndpointView {
    if readable(text) {
        endpoint(url_text(text), url_domain(text))
    } else {
        EndpointView::Invalid
    }
}

/// Finds the endpoint that an address denotes.
pub fn locate(text: &str) -> (r: Endpoint)
    ensures
        r@ == address_endpoint(text@),
{
    if !is_readable(text) {
        return Endpoint::Invalid;
    }
    let url = match parse_url(text) {
        Ok(url) => Some(url),
        Err(_) => None,
    };
    endpoint_of(url, domain_of(text))
}

/// The address with a pair appended to its query, if it is a URL to which the pair can be added.
pub open spec fn paired_url(text: Seq<char>, name: Seq<char>, value: Seq<char>) -> Option<Seq<char>> {
    match url_text(text) {
        Some(url) => if pair_fits(url, name, value) {
            Some(url_with_pair(text, name, value))
        } else {
            None
        },
        None => None,
    }
}

/// The endpoint that an address denotes, with a pair appended to the query.
pub open spec fn paired_endpoint(text: Seq<char>, name: Seq<char>, value: Seq<char>) -> EndpointView {
    if readable(text) {
        endpoint(paired_url(text, name, value), url_domain(text))
    } else {
        EndpointView::Invalid
    }
}

/// Finds the endpoint that an address denotes, with a pair appended to the query. The query is not
/// part of the host, so the domain is that of the address.
pub fn locate_with_pair(text: &str, name: &str, value: &str) -> (r: Endpoint)
    ensures
        r@ == paired_endpoint(text@, name@, value@),
{
    if !is_readable(text) {
        return Endpoint::Invalid;
    }
    let url = match parse_url(text) {
        Ok(url) => if can_take_pair(url.as_str(), name, value) {
            Some(append_pair(text, name, value))
        } else {
            None
        },
        Err(_) => None,
    };
    endpoint_of(url, domain_of(text))
}

/// The host of an address, if it is a URL that can be read and has one.
pub open spec fn address_host(text: Seq<char>) -> Option<Seq<char>> {
    if readable(text) {
        url_host(text)
    } else {
        None
    }
}

/// Finds the host of an address.
pub fn host(text: &str) -> (r: Option<String>)
    ensures
        (match r { Some(s) => Some(s@), None => None }) == address_host(text@),
{
    if is_readable(text) {
        host_of(text)
    } else {
        None
    }
}

} // verus!
