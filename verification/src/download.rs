//! Binary download from an upgrade plan's `info` field:
//!
//! ```json
//! {"binaries": {"linux/amd64": "https://host/midnight-node.tar.gz?checksum=sha256:<hex>"}}
//! ```
//!
//! The URL may point at a raw executable, a `.tar.gz` or a `.zip`. Archives are searched
//! for `bin/<name>`, then `<name>`, then any file of that name.

use sha2::Digest;
use vstd::prelude::*;

use crate::config::opt_text;
use crate::json;
use crate::json::{Json, JsonView};
use crate::layout::opt_view;
use crate::path;
use crate::text;

verus! {

/// An operating system in Go notation.
pub open spec fn go_os(os: Seq<char>) -> Seq<char> {
    if os == "macos"@ {
        "darwin"@
    } else {
        os
    }
}

/// A processor architecture in Go notation.
pub open spec fn go_arch(arch: Seq<char>) -> Seq<char> {
    if arch == "x86_64"@ {
        "amd64"@
    } else if arch == "aarch64"@ {
        "arm64"@
    } else if arch == "x86"@ {
        "386"@
    } else {
        arch
    }
}

/// `<os>/<arch>` in Go notation, e.g. `linux/amd64`.
pub fn platform(os: &str, arch: &str) -> (r: String)
    ensures
        r@ == go_os(os@) + "/"@ + go_arch(arch@),
{
    let os = if text::same(os, "macos") {
        "darwin"
    } else {
        os
    };
    let arch = if text::same(arch, "x86_64") {
        "amd64"
    } else if text::same(arch, "aarch64") {
        "arm64"
    } else if text::same(arch, "x86") {
        "386"
    } else {
        arch
    };
    let mut r = os.to_string();
    r.append("/");
    r.append(arch);
    r
}

/// The digest that a download must have, in lower-case hexadecimal digits.
#[derive(Debug, Clone, PartialEq, Eq)]
pub enum Checksum {
    Sha256(String),
    Sha512(String),
}

/// The digest that a download must have.
pub enum ChecksumView {
    Sha256(Seq<char>),
    Sha512(Seq<char>),
}

impl View for Checksum {
    type V = ChecksumView;

    open spec fn view(&self) -> ChecksumView {
        match *self {
            Checksum::Sha256(h) => ChecksumView::Sha256(h@),
            Checksum::Sha512(h) => ChecksumView::Sha512(h@),
        }
    }
}

/// The view of an optional checksum.
pub open spec fn sum_view(sum: Option<Checksum>) -> Option<ChecksumView> {
    match sum {
        Some(c) => Some(c@),
        None => None,
    }
}

/// Why a text is no checksum.
#[derive(Debug, Clone, Copy, PartialEq, Eq, Structural)]
pub enum ChecksumError {
    /// The text is not of the form `<algo>:<hex>`.
    NoAlgorithm,
    /// The algorithm is neither `sha256` nor `sha512`.
    UnknownAlgorithm,
    /// There are not as many hexadecimal digits as the algorithm's digests have, or
    /// there is something else among them.
    Malformed,
}

pub open spec fn hex_digit_char(c: char) -> bool {
    '0' <= c && c <= '9' || 'a' <= c && c <= 'f' || 'A' <= c && c <= 'F'
}

/// `s` is made of `n` hexadecimal digits.
pub open spec fn hex_of_length(s: Seq<char>, n: nat) -> bool {
    s.len() == n && forall|i: int| 0 <= i < s.len() ==> hex_digit_char(#[trigger] s[i])
}

/// The checksum that a text of the form `<algo>:<hex>` gives.
pub open spec fn checksum_of(s: Seq<char>) -> Result<ChecksumView, ChecksumError> {
    match text::cut(s, ':') {
        None => Err(ChecksumError::NoAlgorithm),
        Some((algo, digits)) => {
            let hex = text::lower(digits);
            if text::lower(algo) == "sha256"@ {
                if hex_of_length(hex, 64) {
                    Ok(ChecksumView::Sha256(hex))
                } else {
                    Err(ChecksumError::Malformed)
                }
            } else if text::lower(algo) == "sha512"@ {
                if hex_of_length(hex, 128) {
                    Ok(ChecksumView::Sha512(hex))
                } else {
                    Err(ChecksumError::Malformed)
                }
            } else {
                Err(ChecksumError::UnknownAlgorithm)
            }
        },
    }
}

fn is_hex(s: &str, n: usize) -> (r: bool)
    ensures
        r == hex_of_length(s@, n as nat),
{
    let v = text::chars_of(s);
    if v.len() != n {
        return false;
    }
    let mut i: usize = 0;
    while i < n
        invariant
            i <= n,
            n == v@.len(),
            v@ == s@,
            forall|j: int| 0 <= j < i ==> hex_digit_char(#[trigger] v@[j]),
        decreases n - i,
    {
        let c: char = v[i];
        if !(('0' <= c && c <= '9') || ('a' <= c && c <= 'f') || ('A' <= c && c <= 'F')) {
            assert(!hex_digit_char(v@[i as int]));
            return false;
        }
        i = i + 1;
    }
    true
}

/// `r` is what a text gives as a checksum.
pub open spec fn parsed_checksum(s: Seq<char>, r: Result<Checksum, ChecksumError>) -> bool {
    match r {
        Ok(c) => checksum_of(s) == Ok::<ChecksumView, ChecksumError>(c@),
        Err(e) => checksum_of(s) == Err::<ChecksumView, ChecksumError>(e),
    }
}

impl ChecksumView {
    /// The hexadecimal digits of the digest.
    pub open spec fn digits(self) -> Seq<char> {
        match self {
            ChecksumView::Sha256(h) => h,
            ChecksumView::Sha512(h) => h,
        }
    }
}

impl Checksum {
    /// The checksum that a text of the form `<algo>:<hex>` gives.
    pub fn parse(s: &str) -> (r: Result<Checksum, ChecksumError>)
        ensures
            parsed_checksum(s@, r),
    {
        let (algo, digits) = match text::split_once(s, ':') {
            Some(pair) => pair,
            None => return Err(ChecksumError::NoAlgorithm),
        };
        let hex = text::to_lower(digits.as_str());
        let algo = text::to_lower(algo.as_str());
        if text::same(algo.as_str(), "sha256") {
            if is_hex(hex.as_str(), 64) {
                Ok(Checksum::Sha256(hex))
            } else {
                Err(ChecksumError::Malformed)
            }
        } else if text::same(algo.as_str(), "sha512") {
            if is_hex(hex.as_str(), 128) {
                Ok(Checksum::Sha512(hex))
            } else {
                Err(ChecksumError::Malformed)
            }
        } else {
            Err(ChecksumError::UnknownAlgorithm)
        }
    }

    /// The hexadecimal digits of the digest.
    pub fn expected(&self) -> (r: &str)
        ensures
            r@ == self@.digits(),
    {
        match self {
            Checksum::Sha256(h) => h.as_str(),
            Checksum::Sha512(h) => h.as_str(),
        }
    }
}

/// The lower-case hexadecimal digit for `d`.
pub open spec fn hex_digit(d: nat) -> char {
    if d < 10 {
        text::digit(d)
    } else {
        (('a' as int) + d - 10) as char
    }
}

/// The bytes written out, two lower-case hexadecimal digits each.
pub open spec fn hex_text(bytes: Seq<u8>) -> Seq<char> {
    Seq::new(
        2 * bytes.len(),
        |i: int|
            if i % 2 == 0 {
                hex_digit((bytes[i / 2] / 16) as nat)
            } else {
                hex_digit((bytes[i / 2] % 16) as nat)
            },
    )
}

/// `hex::encode` writes each byte as two lower-case hexadecimal digits, the high half
/// first.
#[verifier::external_body]
fn encode_hex(bytes: &[u8]) -> (r: String)
    ensures
        r@ == hex_text(bytes@),
{
    hex::encode(bytes)
}

/// A SHA-256 computation under way.
#[verifier::external_type_specification]
#[verifier::external_body]
pub struct ExSha256(sha2::Sha256);

/// A SHA-512 computation under way.
#[verifier::external_type_specification]
#[verifier::external_body]
pub struct ExSha512(sha2::Sha512);

/// The bytes that a SHA-256 computation has taken in.
pub uninterp spec fn fed256(h: sha2::Sha256) -> Seq<u8>;

/// The bytes that a SHA-512 computation has taken in.
pub uninterp spec fn fed512(h: sha2::Sha512) -> Seq<u8>;

/// The SHA-256 digest of some bytes.
pub uninterp spec fn sha256(bytes: Seq<u8>) -> Seq<u8>;

/// The SHA-512 digest of some bytes.
pub uninterp spec fn sha512(bytes: Seq<u8>) -> Seq<u8>;

/// How many bytes a digest can be taken of: SHA-256 counts their bits in a `u64`.
pub const DIGEST_LIMIT: u64 = 0x2000_0000_0000_0000;

/// `Sha256::new` starts a computation that has taken in nothing.
#[verifier::external_body]
fn new256() -> (r: sha2::Sha256)
    ensures
        fed256(r) == Seq::<u8>::empty(),
{
    sha2::Sha256::new()
}

/// `Sha512::new` starts a computation that has taken in nothing.
#[verifier::external_body]
fn new512() -> (r: sha2::Sha512)
    ensures
        fed512(r) == Seq::<u8>::empty(),
{
    sha2::Sha512::new()
}

/// `Digest::update` of a `Sha256` takes in some bytes behind those it has.
#[verifier::external_body]
fn update256(h: &mut sha2::Sha256, data: &[u8])
    requires
        fed256(*old(h)).len() + data@.len() < DIGEST_LIMIT,
    ensures
        fed256(*final(h)) == fed256(*old(h)) + data@,
{
    h.update(data)
}

/// `Digest::update` of a `Sha512` takes in some bytes behind those it has.
#[verifier::external_body]
fn update512(h: &mut sha2::Sha512, data: &[u8])
    requires
        fed512(*old(h)).len() + data@.len() < DIGEST_LIMIT,
    ensures
        fed512(*final(h)) == fed512(*old(h)) + data@,
{
    h.update(data)
}

/// `Digest::finalize` of a `Sha256` gives the SHA-256 digest, 32 bytes, of all that it
/// has taken in. It depends on those bytes alone.
#[verifier::external_body]
fn finalize256(h: sha2::Sha256) -> (r: Vec<u8>)
    requires
        fed256(h).len() < DIGEST_LIMIT,
    ensures
        r@ == sha256(fed256(h)),
        r@.len() == 32,
{
    h.finalize().to_vec()
}

/// `Digest::finalize` of a `Sha512` gives the SHA-512 digest, 64 bytes, of all that it
/// has taken in. It depends on those bytes alone.
#[verifier::external_body]
fn finalize512(h: sha2::Sha512) -> (r: Vec<u8>)
    requires
        fed512(h).len() < DIGEST_LIMIT,
    ensures
        r@ == sha512(fed512(h)),
        r@.len() == 64,
{
    h.finalize().to_vec()
}

/// A digest under way, of the kind that a checksum asks for.
pub enum Hasher {
    Sha256(sha2::Sha256),
    Sha512(sha2::Sha512),
}

impl Hasher {
    /// The bytes taken in so far.
    pub open spec fn fed(self) -> Seq<u8> {
        match self {
            Hasher::Sha256(h) => fed256(h),
            Hasher::Sha512(h) => fed512(h),
        }
    }

    /// This takes the kind of digest that `sum` is.
    pub open spec fn suits(self, sum: ChecksumView) -> bool {
        match sum {
            ChecksumView::Sha256(_) => self is Sha256,
            ChecksumView::Sha512(_) => self is Sha512,
        }
    }

    /// The digest of the bytes taken in.
    pub open spec fn digest(self) -> Seq<char> {
        match self {
            Hasher::Sha256(h) => hex_text(sha256(fed256(h))),
            Hasher::Sha512(h) => hex_text(sha512(fed512(h))),
        }
    }

    /// The start of the digest that `c` asks for, if there is one to check.
    pub fn for_checksum(c: Option<&Checksum>) -> (r: Option<Hasher>)
        ensures
            match c {
                Some(sum) => r matches Some(h) && h.suits(sum@) && h.fed() == Seq::<u8>::empty(),
                None => r is None,
            },
    {
        match c {
            Some(Checksum::Sha256(_)) => Some(Hasher::Sha256(new256())),
            Some(Checksum::Sha512(_)) => Some(Hasher::Sha512(new512())),
            None => None,
        }
    }

    /// Take in `data` behind what was taken in before.
    pub fn update(&mut self, data: &[u8])
        requires
            old(self).fed().len() + data@.len() < DIGEST_LIMIT,
        ensures
            final(self).fed() == old(self).fed() + data@,
            forall|sum: ChecksumView| old(self).suits(sum) == #[trigger] final(self).suits(sum),
    {
        match self {
            Hasher::Sha256(h) => update256(h, data),
            Hasher::Sha512(h) => update512(h, data),
        }
    }

    /// The digest of all that was taken in, in hexadecimal digits.
    pub fn finish(self) -> (r: String)
        requires
            self.fed().len() < DIGEST_LIMIT,
        ensures
            r@ == self.digest(),
    {
        match self {
            Hasher::Sha256(h) => encode_hex(finalize256(h).as_slice()),
            Hasher::Sha512(h) => encode_hex(finalize512(h).as_slice()),
        }
    }
}

/// A URL in parts: what stands before the query, the query, and what stands behind it.
#[derive(Debug)]
pub struct UrlParts {
    pub scheme: String,
    pub front: String,
    pub query: Option<String>,
    pub back: String,
}

/// A URL in parts.
pub struct UrlView {
    pub scheme: Seq<char>,
    pub front: Seq<char>,
    pub query: Option<Seq<char>>,
    pub back: Seq<char>,
}

impl View for UrlParts {
    type V = UrlView;

    open spec fn view(&self) -> UrlView {
        UrlView {
            scheme: self.scheme@,
            front: self.front@,
            query: opt_text(self.query),
            back: self.back@,
        }
    }
}

impl UrlView {
    /// The URL with another query in the place of its own.
    pub open spec fn with_query(self, query: Option<Seq<char>>) -> Seq<char> {
        match query {
            Some(q) => self.front.push('?') + q + self.back,
            None => self.front + self.back,
        }
    }

    /// The query; the empty one where the URL has none.
    pub open spec fn query_text(self) -> Seq<char> {
        match self.query {
            Some(q) => q,
            None => Seq::empty(),
        }
    }
}

/// The URL that a text is, in parts; none where it is no URL.
pub uninterp spec fn url_parts(raw: Seq<char>) -> Option<UrlView>;

/// The names and values in a query, decoded.
pub uninterp spec fn query_pairs(query: Seq<char>) -> Seq<(Seq<char>, Seq<char>)>;

/// Why url refused a text.
#[verifier::external_type_specification]
#[verifier::external_body]
pub struct ExUrlError(url::ParseError);

/// `Url::parse` reads a text as an absolute URL, in a normal form, which its methods
/// and slices hand out in parts. They depend on the text alone. Which parts a given
/// text has is not said.
#[verifier::external_body]
pub(crate) fn parse_url(raw: &str) -> (r: Result<UrlParts, url::ParseError>)
    ensures
        match r {
            Ok(parts) => url_parts(raw@) == Some(parts@),
            Err(_) => url_parts(raw@) is None,
        },
{
    url::Url::parse(raw).map(
        |u| UrlParts {
            scheme: u.scheme().to_string(),
            front: u[..url::Position::AfterPath].to_string(),
            query: u.query().map(|q| q.to_string()),
            back: u[url::Position::AfterQuery..].to_string(),
        },
    )
}

/// The names and values of a decoded query.
pub open spec fn pair_views(pairs: Seq<(String, String)>) -> Seq<(Seq<char>, Seq<char>)> {
    pairs.map_values(|p: (String, String)| (p.0@, p.1@))
}

/// `form_urlencoded::parse` takes a query apart at each `&` and `=` and decodes what it
/// finds. `Url::query_pairs` is this, of the URL's query. It depends on the query alone.
#[verifier::external_body]
fn decode_query(query: &str) -> (r: Vec<(String, String)>)
    ensures
        pair_views(r@) == query_pairs(query@),
{
    url::form_urlencoded::parse(query.as_bytes()).into_owned().collect()
}

/// `Url::set_query` puts another query in the place of a URL's own, or leaves it
/// without one, and changes nothing else. It would encode characters that cannot stand
/// in a query as they are, but the query put in here is part of the one that the URL
/// has, so that there are none; a query that is longer than the URL's own could also
/// make the URL longer than `Url` can hold, which panics.
#[verifier::external_body]
fn replace_query(raw: &str, query: Option<&str>) -> (r: Result<String, url::ParseError>)
    requires
        url_parts(raw@) matches Some(u) ==> supported_scheme(u.scheme) && (query is Some ==> opt_view(
            query,
        ) == query_left(u.query_text())),
    ensures
        match r {
            Ok(url) => url_parts(raw@) matches Some(u) && url@ == u.with_query(opt_view(query)),
            Err(_) => url_parts(raw@) is None,
        },
{
    let mut url = url::Url::parse(raw)?;
    url.set_query(query);
    Ok(url.to_string())
}

/// The name of a `name=value` piece of a query, as it is written.
pub open spec fn piece_name(piece: Seq<char>) -> Seq<char> {
    match text::cut(piece, '=') {
        Some((name, _)) => name,
        None => piece,
    }
}

/// A piece of a query that stays when the checksum is taken out.
pub open spec fn stays(piece: Seq<char>) -> bool {
    piece.len() > 0 && piece_name(piece) != "checksum"@
}

/// The pieces that stay, in their order.
pub open spec fn staying(parts: Seq<Seq<char>>) -> Seq<Seq<char>> {
    parts.filter(|piece: Seq<char>| stays(piece))
}

/// What is left of a query when the checksum is taken out: the other pieces, as they
/// are written; no query where there are none.
pub open spec fn query_left(query: Seq<char>) -> Option<Seq<char>> {
    let kept = staying(text::pieces(query, '&'));
    if kept.len() == 0 {
        None
    } else {
        Some(text::joined(kept, '&'))
    }
}

/// What is left of a query when the checksum is taken out.
pub fn without_checksum(query: &str) -> (r: Option<String>)
    ensures
        opt_text(r) == query_left(query@),
{
    let parts = text::split(query, '&');
    let mut kept: Vec<String> = Vec::new();
    let ghost all = text::pieces(query@, '&');
    let ghost pred = |piece: Seq<char>| stays(piece);
    proof {
        reveal(Seq::filter);
        assert(text::texts(kept@) =~= staying(all.take(0)));
    }
    for part in it: parts
        invariant
            all == text::texts(it.seq()),
            pred == (|piece: Seq<char>| stays(piece)),
            text::texts(kept@) == staying(all.take(it.index() as int)),
    {
        let ghost i = it.index() as int;
        let ghost before = text::texts(kept@);
        proof {
            assert(all.take(i + 1) =~= all.take(i).push(part@));
            all.take(i).lemma_filter_push(part@, pred);
        }
        let named = match text::split_once(part.as_str(), '=') {
            Some((name, _)) => text::same(name.as_str(), "checksum"),
            None => text::same(part.as_str(), "checksum"),
        };
        if !part.as_str().is_empty() && !named {
            kept.push(part);
            assert(text::texts(kept@) =~= before.push(part@));
        }
    }
    assert(all.take(all.len() as int) == all);
    if kept.len() == 0 {
        None
    } else {
        Some(text::join(&kept, '&'))
    }
}

/// The value of the first `checksum` among the decoded pairs of a query.
pub open spec fn checksum_value(pairs: Seq<(Seq<char>, Seq<char>)>) -> Option<Seq<char>>
    decreases pairs.len(),
{
    if pairs.len() == 0 {
        None
    } else if pairs[0].0 == "checksum"@ {
        Some(pairs[0].1)
    } else {
        checksum_value(pairs.drop_first())
    }
}

/// The checksum that the pairs of a query give, if they give one.
pub open spec fn sum_in(pairs: Seq<(Seq<char>, Seq<char>)>) -> Result<
    Option<ChecksumView>,
    ChecksumError,
> {
    match checksum_value(pairs) {
        None => Ok(None),
        Some(value) => match checksum_of(value) {
            Ok(sum) => Ok(Some(sum)),
            Err(e) => Err(e),
        },
    }
}

/// The checksum that the decoded pairs of a query give, if they give one.
pub fn find_checksum(pairs: &Vec<(String, String)>) -> (r: Result<Option<Checksum>, ChecksumError>)
    ensures
        match r {
            Ok(sum) => sum_in(pair_views(pairs@)) == Ok::<Option<ChecksumView>, ChecksumError>(
                sum_view(sum),
            ),
            Err(e) => sum_in(pair_views(pairs@)) == Err::<Option<ChecksumView>, ChecksumError>(e),
        },
{
    let n: usize = pairs.len();
    let mut i: usize = 0;
    let ghost all = pair_views(pairs@);
    assert(all.subrange(0, n as int) == all);
    while i < n
        invariant
            i <= n,
            n == pairs@.len(),
            all == pair_views(pairs@),
            checksum_value(all) == checksum_value(all.subrange(i as int, n as int)),
        decreases n - i,
    {
        let ghost rest = all.subrange(i as int, n as int);
        proof {
            assert(rest[0] == all[i as int]);
            assert(rest.drop_first() == all.subrange(i + 1, n as int));
        }
        if text::same(pairs[i].0.as_str(), "checksum") {
            return match Checksum::parse(pairs[i].1.as_str()) {
                Ok(sum) => Ok(Some(sum)),
                Err(e) => Err(e),
            };
        }
        i = i + 1;
    }
    Ok(None)
}

/// Why a text is no URL to download from.
#[derive(Debug)]
pub enum UrlError {
    Invalid(url::ParseError),
    /// The scheme is none of `https`, `http` and `file`.
    Scheme,
    Checksum(ChecksumError),
}

/// A scheme that can be downloaded from.
pub open spec fn supported_scheme(scheme: Seq<char>) -> bool {
    scheme == "https"@ || scheme == "http"@ || scheme == "file"@
}

impl UrlView {
    /// The URL with the checksum taken out of its query.
    pub open spec fn left(self) -> Seq<char> {
        self.with_query(query_left(self.query_text()))
    }
}

/// `r` is what a URL with these parts, and these pairs in its query, gives: the URL
/// without its checksum, and the checksum.
pub open spec fn split_of(
    u: UrlView,
    pairs: Seq<(Seq<char>, Seq<char>)>,
    r: Result<(String, Option<Checksum>), UrlError>,
) -> bool {
    if !supported_scheme(u.scheme) {
        r matches Err(UrlError::Scheme)
    } else {
        match sum_in(pairs) {
            Err(e) => r matches Err(UrlError::Checksum(found)) && found == e,
            Ok(sum) => r matches Ok((url, found)) && url@ == u.left() && sum_view(found) == sum,
        }
    }
}

/// `r` is what the URL `raw` gives: the URL without its checksum, and the checksum.
pub open spec fn split_result(
    raw: Seq<char>,
    r: Result<(String, Option<Checksum>), UrlError>,
) -> bool {
    match url_parts(raw) {
        None => r matches Err(UrlError::Invalid(_)),
        Some(u) => split_of(u, query_pairs(u.query_text()), r),
    }
}

fn is_supported(scheme: &str) -> (r: bool)
    ensures
        r == supported_scheme(scheme@),
{
    text::same(scheme, "https") || text::same(scheme, "http") || text::same(scheme, "file")
}

/// Split the `?checksum=<algo>:<hex>` query parameter off a URL. The checksum is read
/// decoded; the rest of the query stays as it is written, since to encode it anew would
/// break pre-signed URLs.
pub fn split_checksum(raw: &str) -> (r: Result<(String, Option<Checksum>), UrlError>)
    ensures
        split_result(raw@, r),
{
    let parts = match parse_url(raw) {
        Ok(p) => p,
        Err(e) => return Err(UrlError::Invalid(e)),
    };
    if !is_supported(parts.scheme.as_str()) {
        return Err(UrlError::Scheme);
    }
    let query = match parts.query {
        Some(q) => q,
        None => String::new(),
    };
    let sum = match find_checksum(&decode_query(query.as_str())) {
        Ok(sum) => sum,
        Err(e) => return Err(UrlError::Checksum(e)),
    };
    let rest = without_checksum(query.as_str());
    let rest_text = match &rest {
        Some(q) => Some(q.as_str()),
        None => None,
    };
    proof {
        empty_query_leaves_none();
    }
    match replace_query(raw, rest_text) {
        Ok(url) => Ok((url, sum)),
        Err(e) => Err(UrlError::Invalid(e)),
    }
}

proof fn empty_query_leaves_none()
    ensures
        query_left(Seq::empty()) is None,
{
    let none = Seq::<char>::empty();
    assert(text::pieces(none, '&') =~= seq![none]);
    reveal(Seq::filter);
    assert(seq![none].drop_last() =~= Seq::<Seq<char>>::empty());
    assert(staying(Seq::empty()) =~= Seq::<Seq<char>>::empty());
    assert(seq![none].last() == none);
}

proof fn checksum_does_not_stay(value: Seq<char>)
    requires
        !value.contains('&'),
    ensures
        text::pieces("checksum="@ + value, '&') == seq!["checksum="@ + value],
        !stays("checksum="@ + value),
        staying(seq!["checksum="@ + value]) == Seq::<Seq<char>>::empty(),
{
    let piece = "checksum="@ + value;
    reveal_strlit("checksum=");
    reveal_strlit("checksum");
    assert(!piece.contains('&')) by {
        if piece.contains('&') {
            let i = choose|i: int| 0 <= i < piece.len() && piece[i] == '&';
            if i >= 9 {
                assert(value[i - 9] == '&');
            }
        }
    }
    text::one_piece(piece, '&');
    reveal_with_fuel(text::first_place, 10);
    assert(text::first_place(piece, '=', 0) == Some(8int));
    assert(piece.subrange(0, 8) =~= "checksum"@);
    reveal(Seq::filter);
    assert(seq![piece].drop_last() =~= Seq::<Seq<char>>::empty());
    assert(staying(Seq::empty()) =~= Seq::<Seq<char>>::empty());
    assert(seq![piece].last() == piece);
}

/// A query that holds no checksum and no empty piece survives as it is written.
pub proof fn query_without_checksum_survives(query: Seq<char>)
    requires
        forall|i: int|
            0 <= i < text::pieces(query, '&').len() ==> stays(#[trigger] text::pieces(query, '&')[i]),
    ensures
        query_left(query) == Some(query),
{
    let parts = text::pieces(query, '&');
    text::pieces_not_empty(query, '&');
    text::join_undoes_split(query, '&');
    all_stay(parts);
}

proof fn all_stay(parts: Seq<Seq<char>>)
    requires
        forall|i: int| 0 <= i < parts.len() ==> stays(#[trigger] parts[i]),
    ensures
        staying(parts) == parts,
    decreases parts.len(),
{
    reveal(Seq::filter);
    if parts.len() > 0 {
        all_stay(parts.drop_last());
        assert(stays(parts[parts.len() - 1]));
        assert(parts.drop_last().push(parts.last()) == parts);
    }
}

/// Wherever a checksum stands in a query, first, last, between others or alone, what is
/// left is what would be left had it never been there.
pub proof fn checksum_leaves_no_trace(front: Seq<char>, value: Seq<char>, back: Seq<char>)
    requires
        !value.contains('&'),
    ensures
        query_left("checksum="@ + value) is None,
        query_left(front.push('&') + ("checksum="@ + value)) == query_left(front),
        query_left(("checksum="@ + value).push('&') + back) == query_left(back),
        query_left(front.push('&') + (("checksum="@ + value).push('&') + back)) == query_left(
            front.push('&') + back,
        ),
{
    let sum = "checksum="@ + value;
    let pred = |piece: Seq<char>| stays(piece);
    let f = text::pieces(front, '&');
    let b = text::pieces(back, '&');
    checksum_does_not_stay(value);
    text::pieces_of_both(front, sum, '&');
    text::pieces_of_both(sum, back, '&');
    text::pieces_of_both(front, sum.push('&') + back, '&');
    text::pieces_of_both(front, back, '&');
    Seq::filter_distributes_over_add(f, seq![sum], pred);
    Seq::filter_distributes_over_add(seq![sum], b, pred);
    Seq::filter_distributes_over_add(f, seq![sum] + b, pred);
    Seq::filter_distributes_over_add(f, b, pred);
    assert(staying(f) + Seq::<Seq<char>>::empty() == staying(f));
    assert(Seq::<Seq<char>>::empty() + staying(b) == staying(b));
}

/// A URL whose query holds neither a checksum nor an empty piece, such as one that was
/// signed, survives as it is written when a checksum is put behind its query.
pub proof fn signed_url_survives(u: UrlView, query: Seq<char>, value: Seq<char>)
    requires
        !value.contains('&'),
        forall|i: int|
            0 <= i < text::pieces(query, '&').len() ==> stays(#[trigger] text::pieces(query, '&')[i]),
        u.query == Some(query.push('&') + ("checksum="@ + value)),
    ensures
        u.left() == u.front.push('?') + query + u.back,
{
    checksum_leaves_no_trace(query, value, Seq::empty());
    query_without_checksum_survives(query);
}

/// Why download instructions name no binary.
#[derive(Debug, Clone, Copy, PartialEq, Eq, Structural)]
pub enum InfoError {
    /// There is no `binaries` map.
    NoBinaries,
    /// The map has no text for the platform, nor, where it does not have the platform
    /// at all, for `any`.
    NoMatch,
}

/// What a map says for a platform: the platform's own value, else that of `any`.
pub open spec fn entry_for(binaries: JsonView, platform: Seq<char>) -> Option<JsonView> {
    match binaries.at(platform) {
        Some(v) => Some(v),
        None => binaries.at("any"@),
    }
}

/// The URL of the binary that download instructions name for a platform.
pub open spec fn binary_for(doc: JsonView, platform: Seq<char>) -> Result<Seq<char>, InfoError> {
    match doc.at("binaries"@) {
        Some(JsonView::Object(m)) => match entry_for(JsonView::Object(m), platform) {
            Some(JsonView::Text(url)) => Ok(url),
            _ => Err(InfoError::NoMatch),
        },
        _ => Err(InfoError::NoBinaries),
    }
}

/// `r` is what download instructions name for a platform.
pub open spec fn selected(
    doc: JsonView,
    platform: Seq<char>,
    r: Result<String, InfoError>,
) -> bool {
    match r {
        Ok(url) => binary_for(doc, platform) == Ok::<Seq<char>, InfoError>(url@),
        Err(e) => binary_for(doc, platform) == Err::<Seq<char>, InfoError>(e),
    }
}

/// The URL of the binary that download instructions name for a platform.
pub fn select_binary(doc: &Json, platform: &str) -> (r: Result<String, InfoError>)
    ensures
        selected(doc@, platform@, r),
{
    let binaries = match doc.get("binaries") {
        Some(b) => b,
        None => return Err(InfoError::NoBinaries),
    };
    if !matches!(binaries, Json::Object(_)) {
        return Err(InfoError::NoBinaries);
    }
    let entry = match binaries.get(platform) {
        Some(v) => Some(v),
        None => binaries.get("any"),
    };
    match entry {
        Some(Json::Text(url)) => Ok(url.clone()),
        _ => Err(InfoError::NoMatch),
    }
}

/// The view of an optional JSON value.
pub open spec fn info_view(info: Option<&Json>) -> Option<JsonView> {
    match info {
        Some(j) => Some(j@),
        None => None,
    }
}

/// Download instructions that may lead to a binary: the URL of a document, or one that
/// names a binary for the platform.
pub open spec fn downloadable(info: Option<JsonView>, platform: Seq<char>) -> bool {
    match info {
        Some(JsonView::Text(_)) => true,
        Some(doc) => binary_for(doc, platform) is Ok,
        None => false,
    }
}

/// Whether a plan's `info` may lead to a binary.
pub fn has_download_info(info: Option<&Json>, platform: &str) -> (r: bool)
    ensures
        r == downloadable(info_view(info), platform@),
{
    match info {
        Some(Json::Text(_)) => true,
        Some(doc) => select_binary(doc, platform).is_ok(),
        None => false,
    }
}

/// Where the bytes of a download are.
#[derive(Debug)]
pub enum Source {
    /// In the file at this path.
    File(String),
    /// At the URL itself.
    Remote,
}

/// A download to make: what is at `url`, which has to have `checksum` if there is one.
#[derive(Debug)]
pub struct Fetch {
    pub url: String,
    pub checksum: Option<Checksum>,
    pub source: Source,
}

/// Why nothing is downloaded from a URL.
#[derive(Debug)]
pub enum FetchError {
    Url(UrlError),
    /// There is no checksum at this URL, and there must be one.
    NoChecksum(String),
}

/// The bytes have another digest than they must have.
#[derive(Debug)]
pub struct Mismatch {
    pub expected: String,
    pub actual: String,
}

/// Where the bytes of a download from `url` are.
pub open spec fn source_of(url: Seq<char>, source: Source) -> bool {
    match text::after(url, "file://"@) {
        Some(file) => source matches Source::File(p) && p@ == file,
        None => source is Remote,
    }
}

/// `r` is the download that a URL, split into its checksum and the rest, leads to.
pub open spec fn fetch_of(
    must_have_checksum: bool,
    url: Seq<char>,
    sum: Option<ChecksumView>,
    r: Result<Fetch, FetchError>,
) -> bool {
    if sum is None && must_have_checksum {
        r matches Err(FetchError::NoChecksum(u)) && u@ == url
    } else {
        r matches Ok(f) && f.url@ == url && sum_view(f.checksum) == sum && source_of(url, f.source)
    }
}

/// `r` is the download that the URL `raw` leads to.
pub open spec fn fetch_result(
    must_have_checksum: bool,
    raw: Seq<char>,
    r: Result<Fetch, FetchError>,
) -> bool {
    match url_parts(raw) {
        None => r matches Err(FetchError::Url(UrlError::Invalid(_))),
        Some(u) => if !supported_scheme(u.scheme) {
            r matches Err(FetchError::Url(UrlError::Scheme))
        } else {
            match sum_in(query_pairs(u.query_text())) {
                Err(e) => r matches Err(FetchError::Url(UrlError::Checksum(found))) && found == e,
                Ok(sum) => fetch_of(must_have_checksum, u.left(), sum, r),
            }
        },
    }
}

/// What to download for an upgrade.
#[derive(Debug)]
pub enum Instructions {
    /// The document at this URL, which names the binary.
    Document(String),
    /// The binary at this URL.
    Binary(String),
}

/// Why a document names no binary.
#[derive(Debug)]
pub enum DocumentError {
    /// The document is not JSON.
    Syntax(serde_json::Error),
    Info(InfoError),
}

/// Downloads binaries and insists on their checksums.
#[derive(Debug)]
pub struct Downloader {
    must_have_checksum: bool,
}

impl Downloader {
    /// Whether a download without a checksum is refused.
    pub closed spec fn strict(self) -> bool {
        self.must_have_checksum
    }

    pub fn new(must_have_checksum: bool) -> (r: Downloader)
        ensures
            r.strict() == must_have_checksum,
    {
        Downloader { must_have_checksum }
    }

    /// What to download first, given a plan's `info`: where it is a text, the document
    /// at that URL, else the binary that it names for the platform.
    pub fn install(&self, info: &Json, platform: &str) -> (r: Result<Instructions, InfoError>)
        ensures
            match info@ {
                JsonView::Text(url) => r matches Ok(Instructions::Document(u)) && u@ == url,
                doc => match binary_for(doc, platform@) {
                    Ok(url) => r matches Ok(Instructions::Binary(u)) && u@ == url,
                    Err(e) => r matches Err(found) && found == e,
                },
            },
    {
        match info {
            Json::Text(url) => Ok(Instructions::Document(url.clone())),
            doc => match select_binary(doc, platform) {
                Ok(url) => Ok(Instructions::Binary(url)),
                Err(e) => Err(e),
            },
        }
    }

    /// The URL of the binary that a downloaded document names for the platform.
    pub fn read_document(bytes: &[u8], platform: &str) -> (r: Result<String, DocumentError>)
        ensures
            match json::json_document(bytes@) {
                None => r matches Err(DocumentError::Syntax(_)),
                Some(doc) => match binary_for(doc, platform@) {
                    Ok(url) => r matches Ok(u) && u@ == url,
                    Err(e) => r matches Err(DocumentError::Info(found)) && found == e,
                },
            },
    {
        let doc = match json::parse(bytes) {
            Ok(doc) => doc,
            Err(e) => return Err(DocumentError::Syntax(e)),
        };
        match select_binary(&doc, platform) {
            Ok(url) => Ok(url),
            Err(e) => Err(DocumentError::Info(e)),
        }
    }

    /// The download that a URL leads to.
    pub fn fetch(&self, raw_url: &str) -> (r: Result<Fetch, FetchError>)
        ensures
            fetch_result(self.strict(), raw_url@, r),
    {
        match split_checksum(raw_url) {
            Ok((url, sum)) => {
                self.fetch_split(url, sum)
            },
            Err(e) => Err(FetchError::Url(e)),
        }
    }

    /// The download that a URL leads to, split into its checksum and the rest.
    pub fn fetch_split(&self, url: String, sum: Option<Checksum>) -> (r: Result<Fetch, FetchError>)
        ensures
            fetch_of(self.strict(), url@, sum_view(sum), r),
    {
        if sum.is_none() && self.must_have_checksum {
            return Err(FetchError::NoChecksum(url));
        }
        let source = match text::strip_prefix(url.as_str(), "file://") {
            Some(file) => Source::File(file),
            None => Source::Remote,
        };
        Ok(Fetch { url, checksum: sum, source })
    }
}

/// A digest was taken, of the kind that the checksum asks for, where there is one.
pub open spec fn checkable(sum: Option<ChecksumView>, hasher: Option<Hasher>) -> bool {
    sum matches Some(c) ==> (hasher matches Some(h) && h.suits(c))
}

/// `r` is what comes of checking a download against its checksum, where it has one.
pub open spec fn verified(
    sum: Option<ChecksumView>,
    hasher: Option<Hasher>,
    r: Result<(), Mismatch>,
) -> bool {
    match (sum, hasher) {
        (None, _) => r is Ok,
        (Some(sum), Some(h)) => match r {
            Ok(()) => h.digest() == sum.digits(),
            Err(e) => h.digest() != sum.digits() && e.expected@ == sum.digits() && e.actual@
                == h.digest(),
        },
        (Some(_), None) => false,
    }
}

impl Fetch {
    /// Check the digest of what was downloaded, where there is a checksum. `hasher` is the
    /// one made for the checksum, fed with what was downloaded.
    pub fn verify(&self, hasher: Option<Hasher>) -> (r: Result<(), Mismatch>)
        requires
            checkable(sum_view(self.checksum), hasher),
            hasher matches Some(h) ==> h.fed().len() < DIGEST_LIMIT,
        ensures
            verified(sum_view(self.checksum), hasher, r),
    {
        match (&self.checksum, hasher) {
            (Some(sum), Some(h)) => {
                let actual = h.finish();
                if text::same(actual.as_str(), sum.expected()) {
                    Ok(())
                } else {
                    Err(Mismatch { expected: sum.expected().to_string(), actual })
                }
            },
            _ => Ok(()),
        }
    }
}

/// The bytes have the digest that the checksum asks for.
pub open spec fn has_digest(bytes: Seq<u8>, sum: ChecksumView) -> bool {
    match sum {
        ChecksumView::Sha256(digits) => hex_text(sha256(bytes)) == digits,
        ChecksumView::Sha512(digits) => hex_text(sha512(bytes)) == digits,
    }
}

/// Where checksums are insisted on, no download passes unverified: a URL without a
/// checksum leads to none, and one that passes the check has the digest that its URL
/// asks for.
pub proof fn strict_download_is_verified(
    raw: Seq<char>,
    f: Fetch,
    hasher: Option<Hasher>,
    r: Result<(), Mismatch>,
)
    requires
        fetch_result(true, raw, Ok(f)),
        checkable(sum_view(f.checksum), hasher),
        verified(sum_view(f.checksum), hasher, r),
        r is Ok,
    ensures
        f.checksum is Some,
        hasher is Some,
        has_digest(hasher->0.fed(), f.checksum->0@),
{
}

/// How a downloaded file is packed.
#[derive(Debug, Clone, Copy, PartialEq, Eq, Structural)]
pub enum Packing {
    TarGz,
    Zip,
    /// The file is the binary itself.
    Plain,
}

/// How a file is packed, by the bytes that it starts with.
pub open spec fn packing_of(magic: Seq<u8>) -> Packing {
    if seq![0x1fu8, 0x8bu8].is_prefix_of(magic) {
        Packing::TarGz
    } else if seq![0x50u8, 0x4bu8, 0x03u8, 0x04u8].is_prefix_of(magic) {
        Packing::Zip
    } else {
        Packing::Plain
    }
}

/// How a file is packed, by the bytes that it starts with.
pub fn packing(magic: &[u8]) -> (r: Packing)
    ensures
        r == packing_of(magic@),
{
    if magic.len() >= 2 && magic[0] == 0x1f && magic[1] == 0x8b {
        assert(seq![0x1fu8, 0x8bu8].is_prefix_of(magic@));
        return Packing::TarGz;
    }
    assert(!seq![0x1fu8, 0x8bu8].is_prefix_of(magic@)) by {
        if seq![0x1fu8, 0x8bu8].is_prefix_of(magic@) {
            assert(magic@[0] == seq![0x1fu8, 0x8bu8][0]);
            assert(magic@[1] == seq![0x1fu8, 0x8bu8][1]);
        }
    }
    let ghost zip = seq![0x50u8, 0x4bu8, 0x03u8, 0x04u8];
    if magic.len() >= 4 && magic[0] == 0x50 && magic[1] == 0x4b && magic[2] == 0x03 && magic[3]
        == 0x04 {
        assert(zip.is_prefix_of(magic@));
        return Packing::Zip;
    }
    assert(!zip.is_prefix_of(magic@)) by {
        if zip.is_prefix_of(magic@) {
            assert(magic@[0] == zip[0]);
            assert(magic@[1] == zip[1]);
            assert(magic@[2] == zip[2]);
            assert(magic@[3] == zip[3]);
        }
    }
    Packing::Plain
}

/// What lies in a directory that an archive was unpacked to.
#[derive(Debug)]
pub enum Node {
    /// A plain file of this name.
    File(String),
    /// A directory of this name, with what lies in it.
    Dir(String, Vec<Node>),
    /// Anything else.
    Other,
    /// Something that could not be looked at, and why.
    Unreadable(String),
}

/// What a search comes to.
pub enum Found {
    /// The file at this path.
    At(Seq<char>),
    /// There is no such file.
    Nowhere,
    /// Something on the way could not be looked at.
    Barred(Seq<char>),
}

/// What the search for a file comes to among `nodes`, which lie in `dir`: the first file
/// of that name counts, and a directory is searched where it stands.
pub open spec fn search(nodes: Seq<Node>, dir: Seq<char>, name: Seq<char>) -> Found
    decreases nodes,
{
    if nodes.len() == 0 {
        Found::Nowhere
    } else {
        let front = search(nodes.drop_last(), dir, name);
        if front is Nowhere {
            search_node(nodes.last(), dir, name)
        } else {
            front
        }
    }
}

/// What the search for a file comes to at a single node.
pub open spec fn search_node(node: Node, dir: Seq<char>, name: Seq<char>) -> Found
    decreases node,
{
    match node {
        Node::File(n) => if n@ == name {
            Found::At(path::joined(dir, n@))
        } else {
            Found::Nowhere
        },
        Node::Dir(n, inner) => search(inner@, path::joined(dir, n@), name),
        Node::Other => Found::Nowhere,
        Node::Unreadable(why) => Found::Barred(why@),
    }
}

/// `r` is what a search comes to.
pub open spec fn found(f: Found, r: Result<Option<String>, String>) -> bool {
    match f {
        Found::At(p) => r matches Ok(Some(s)) && s@ == p,
        Found::Nowhere => r matches Ok(None),
        Found::Barred(why) => r matches Err(e) && e@ == why,
    }
}

proof fn search_goes_on(nodes: Seq<Node>, i: int, dir: Seq<char>, name: Seq<char>)
    requires
        0 <= i <= nodes.len(),
        !(search(nodes.take(i), dir, name) is Nowhere),
    ensures
        search(nodes, dir, name) == search(nodes.take(i), dir, name),
    decreases nodes.len(),
{
    if i < nodes.len() {
        assert(nodes.drop_last().take(i) == nodes.take(i));
        search_goes_on(nodes.drop_last(), i, dir, name);
    } else {
        assert(nodes.take(i) == nodes);
    }
}

/// Search a directory, and the directories in it, for a file.
pub fn find_file(nodes: &Vec<Node>, dir: &str, name: &str) -> (r: Result<Option<String>, String>)
    ensures
        found(search(nodes@, dir@, name@), r),
    decreases nodes,
{
    let mut i: usize = 0;
    assert(search(nodes@.take(0), dir@, name@) is Nowhere);
    while i < nodes.len()
        invariant
            i <= nodes@.len(),
            search(nodes@.take(i as int), dir@, name@) is Nowhere,
        decreases nodes@.len() - i,
    {
        let ghost upto = nodes@.take(i + 1);
        proof {
            assert(upto.drop_last() == nodes@.take(i as int));
            assert(upto.last() == nodes@[i as int]);
            reveal_with_fuel(search, 2);
            reveal_with_fuel(search_node, 2);
            assert(search(upto, dir@, name@) == search_node(nodes@[i as int], dir@, name@));
            if !(search(upto, dir@, name@) is Nowhere) {
                search_goes_on(nodes@, i + 1, dir@, name@);
            }
        }
        match &nodes[i] {
            Node::File(n) => {
                if text::same(n.as_str(), name) {
                    return Ok(Some(path::join(dir, n.as_str())));
                }
            },
            Node::Dir(n, inner) => {
                proof {
                    assert(nodes@[i as int]->Dir_1 == *inner);
                    assert(decreases_to!(nodes => nodes@));
                    assert(decreases_to!(nodes@ => nodes@[i as int]));
                    assert(decreases_to!(nodes@[i as int] => nodes@[i as int]->Dir_1));
                }
                let deeper = find_file(inner, path::join(dir, n.as_str()).as_str(), name);
                match deeper {
                    Ok(None) => {},
                    _ => return deeper,
                }
            },
            Node::Other => {},
            Node::Unreadable(why) => return Err(why.clone()),
        }
        i = i + 1;
    }
    assert(nodes@.take(nodes@.len() as int) == nodes@);
    Ok(None)
}

/// Where the node binary is in an unpacked archive: at `bin/<name>`, else at `<name>`,
/// else the first file of that name.
pub open spec fn binary_place(
    extract_dir: Seq<char>,
    name: Seq<char>,
    in_bin: bool,
    on_top: bool,
    nodes: Seq<Node>,
) -> Found {
    if in_bin {
        Found::At(path::joined(path::joined(extract_dir, "bin"@), name))
    } else if on_top {
        Found::At(path::joined(extract_dir, name))
    } else {
        search(nodes, extract_dir, name)
    }
}

/// The places of an unpacked archive that are looked at first: `bin/<name>` and
/// `<name>`.
pub fn candidates(extract_dir: &str, name: &str) -> (r: (String, String))
    ensures
        r.0@ == path::joined(path::joined(extract_dir@, "bin"@), name@),
        r.1@ == path::joined(extract_dir@, name@),
{
    (path::join(path::join(extract_dir, "bin").as_str(), name), path::join(extract_dir, name))
}

/// The node binary in an archive that was unpacked to `extract_dir`, given whether there
/// are files at the two candidates' places.
pub fn unpack(
    extract_dir: &str,
    name: &str,
    in_bin: bool,
    on_top: bool,
    nodes: &Vec<Node>,
) -> (r: Result<Option<String>, String>)
    ensures
        found(binary_place(extract_dir@, name@, in_bin, on_top, nodes@), r),
{
    let (first, second) = candidates(extract_dir, name);
    if in_bin {
        Ok(Some(first))
    } else if on_top {
        Ok(Some(second))
    } else {
        find_file(nodes, extract_dir, name)
    }
}

} // verus!
