//! What is downloaded, how it is checked, and where the binary is found in it.

use vstd::prelude::*;

use crate::download::{
    binary_for, binary_place, checkable, checksum_of, checksum_value, downloadable, fetch_of,
    go_arch, go_os, hex_digit, hex_text, packing_of, query_left, search, sha256, sha512,
    source_of, split_of, stays, sum_in, sum_view, verified, Checksum,
    ChecksumError, ChecksumView, Fetch, FetchError, Found, Hasher, InfoError, Mismatch, Node,
    Packing, Source, UrlError, UrlView,
};
use crate::json::JsonView;
use crate::laws::plan::lower_case_of;
use crate::path;
use crate::text;

verus! {

/// Platforms are named as Go names them; a name that Go does not change stays as it is.
pub proof fn platforms_are_named_as_in_go(name: Seq<char>)
    ensures
        go_os("macos"@) == "darwin"@,
        name != "macos"@ ==> go_os(name) == name,
        go_arch("x86_64"@) == "amd64"@,
        go_arch("aarch64"@) == "arm64"@,
        go_arch("x86"@) == "386"@,
        name != "x86_64"@ && name != "aarch64"@ && name != "x86"@ ==> go_arch(name) == name,
{
    reveal_strlit("x86_64");
    reveal_strlit("aarch64");
    reveal_strlit("x86");
    assert("x86_64"@.len() == 6 && "aarch64"@.len() == 7 && "x86"@.len() == 3);
}

/// `s` is made of hexadecimal digits, in upper or lower case.
pub open spec fn all_hex(s: Seq<char>) -> bool {
    forall|i: int| 0 <= i < s.len() ==> "0123456789abcdefABCDEF"@.contains(#[trigger] s[i])
}

proof fn hex_digits_are_listed(c: char)
    ensures
        crate::download::hex_digit_char(c) == "0123456789abcdefABCDEF"@.contains(c),
{
    let all = "0123456789abcdefABCDEF"@;
    reveal_strlit("0123456789abcdefABCDEF");
    if crate::download::hex_digit_char(c) {
        let k: int = if '0' <= c && c <= '9' {
            c as int - '0' as int
        } else if 'a' <= c && c <= 'f' {
            c as int - 'a' as int + 10
        } else {
            c as int - 'A' as int + 16
        };
        assert(all[k] == c);
    }
}

proof fn lower_keeps_hex(s: Seq<char>, t: Seq<char>, n: nat)
    requires
        lower_case_of(s, t),
    ensures
        crate::download::hex_of_length(t, n) <==> s.len() == n && all_hex(s),
{
    assert forall|i: int| #![trigger s[i]] 0 <= i < s.len() implies (
    "0123456789abcdefABCDEF"@.contains(s[i]) == crate::download::hex_digit_char(t[i])) by {
        hex_digits_are_listed(s[i]);
    }
    if crate::download::hex_of_length(t, n) {
        assert forall|i: int| 0 <= i < s.len() implies "0123456789abcdefABCDEF"@.contains(
            #[trigger] s[i],
        ) by {
            assert(crate::download::hex_digit_char(t[i]));
        }
    }
    if s.len() == n && all_hex(s) {
        assert forall|i: int| 0 <= i < t.len() implies crate::download::hex_digit_char(
            #[trigger] t[i],
        ) by {
            assert("0123456789abcdefABCDEF"@.contains(s[i]));
        }
    }
}

/// A checksum is an algorithm, a colon and the digest, all in upper or lower case. SHA-256
/// has 64 hexadecimal digits and SHA-512 has 128; anything else is refused.
pub proof fn checksums_are_read(algo: Seq<char>, word: Seq<char>, digits: Seq<char>, hex: Seq<char>)
    requires
        !algo.contains(':'),
        lower_case_of(algo, word),
        lower_case_of(digits, hex),
    ensures
        word == "sha256"@ && digits.len() == 64 && all_hex(digits) ==> checksum_of(
            algo.push(':') + digits,
        ) == Ok::<ChecksumView, ChecksumError>(ChecksumView::Sha256(hex)),
        word == "sha512"@ && digits.len() == 128 && all_hex(digits) ==> checksum_of(
            algo.push(':') + digits,
        ) == Ok::<ChecksumView, ChecksumError>(ChecksumView::Sha512(hex)),
        word == "sha256"@ && !(digits.len() == 64 && all_hex(digits)) ==> checksum_of(
            algo.push(':') + digits,
        ) == Err::<ChecksumView, ChecksumError>(ChecksumError::Malformed),
        word == "sha512"@ && !(digits.len() == 128 && all_hex(digits)) ==> checksum_of(
            algo.push(':') + digits,
        ) == Err::<ChecksumView, ChecksumError>(ChecksumError::Malformed),
        word != "sha256"@ && word != "sha512"@ ==> checksum_of(algo.push(':') + digits) == Err::<
            ChecksumView,
            ChecksumError,
        >(ChecksumError::UnknownAlgorithm),
        checksum_of(algo) == Err::<ChecksumView, ChecksumError>(ChecksumError::NoAlgorithm),
{
    crate::laws::text::cut_at_the_first(algo, ':', digits);
    assert forall|i: int| 0 <= i < algo.len() implies text::lower(algo)[i] == word[i] by {
        assert(text::lower(algo)[i] == text::lower_char(algo[i]));
    }
    assert(text::lower(algo) =~= word);
    assert forall|i: int| 0 <= i < digits.len() implies text::lower(digits)[i] == hex[i] by {
        assert(text::lower(digits)[i] == text::lower_char(digits[i]));
    }
    assert(text::lower(digits) =~= hex);
    lower_keeps_hex(digits, hex, 64);
    lower_keeps_hex(digits, hex, 128);
    reveal_strlit("sha256");
    reveal_strlit("sha512");
    assert("sha256"@[3] == '2' && "sha512"@[3] == '5');
}

/// Two runs of bytes that are written alike are the same.
pub proof fn hex_digits_tell_bytes_apart(a: Seq<u8>, b: Seq<u8>)
    requires
        hex_text(a) == hex_text(b),
    ensures
        a == b,
{
    assert(hex_text(a).len() == 2 * a.len());
    assert(hex_text(b).len() == 2 * b.len());
    assert forall|i: int| 0 <= i < a.len() implies a[i] == b[i] by {
        let (x, y) = (a[i], b[i]);
        let k = 2 * i;
        assert(k / 2 == i && k % 2 == 0);
        assert((k + 1) / 2 == i && (k + 1) % 2 == 1);
        assert(hex_text(a)[k] == hex_digit((a[k / 2] / 16) as nat));
        assert(hex_text(b)[k] == hex_digit((b[k / 2] / 16) as nat));
        assert(hex_text(a)[k + 1] == hex_digit((a[(k + 1) / 2] % 16) as nat));
        assert(hex_text(b)[k + 1] == hex_digit((b[(k + 1) / 2] % 16) as nat));
        assert(x / 16 < 16 && y / 16 < 16);
        assert(x / 16 == y / 16);
        assert(x % 16 == y % 16);
    }
    assert(a =~= b);
}

/// The first `checksum` of a query counts, wherever it stands; without one there is none.
pub proof fn first_checksum_counts(
    front: Seq<(Seq<char>, Seq<char>)>,
    value: Seq<char>,
    rest: Seq<(Seq<char>, Seq<char>)>,
)
    requires
        forall|i: int| 0 <= i < front.len() ==> (#[trigger] front[i]).0 != "checksum"@,
    ensures
        checksum_value(front + (seq![("checksum"@, value)] + rest)) == Some(value),
        checksum_value(front) is None,
        sum_in(front) == Ok::<Option<ChecksumView>, ChecksumError>(None),
    decreases front.len(),
{
    let tail = seq![("checksum"@, value)] + rest;
    if front.len() == 0 {
        assert(front + tail =~= tail);
        assert(tail[0] == ("checksum"@, value));
    } else {
        let less = front.drop_first();
        assert forall|i: int| 0 <= i < less.len() implies (#[trigger] less[i]).0
            != "checksum"@ by {
            assert(less[i] == front[i + 1]);
        }
        first_checksum_counts(less, value, rest);
        assert((front + tail)[0] == front[0]);
        assert((front + tail).drop_first() =~= less + tail);
    }
}

/// A checksum that cannot be read is refused, and one that can is the one that is asked for.
pub proof fn checksum_in_a_query_is_asked_for(
    pairs: Seq<(Seq<char>, Seq<char>)>,
    value: Seq<char>,
)
    requires
        checksum_value(pairs) == Some(value),
    ensures
        checksum_of(value) matches Ok(sum) ==> sum_in(pairs) == Ok::<
            Option<ChecksumView>,
            ChecksumError,
        >(Some(sum)),
        checksum_of(value) matches Err(e) ==> sum_in(pairs) == Err::<
            Option<ChecksumView>,
            ChecksumError,
        >(e),
{
}

/// Downloads come over HTTPS, HTTP or from a file, and from nowhere else.
pub proof fn three_schemes_are_supported(
    u: UrlView,
    pairs: Seq<(Seq<char>, Seq<char>)>,
    r: Result<(String, Option<Checksum>), UrlError>,
)
    requires
        split_of(u, pairs, r),
    ensures
        r matches Err(UrlError::Scheme) <==> u.scheme != "https"@ && u.scheme != "http"@ && u.scheme
            != "file"@,
        r matches Ok((url, sum)) ==> url@ == u.left() && sum_in(pairs) == Ok::<
            Option<ChecksumView>,
            ChecksumError,
        >(sum_view(sum)),
{
}

/// A parameter of a query survives as it is written, whatever it is, unless it is a checksum,
/// whether a checksum stands before it or behind it.
pub proof fn other_parameters_survive(piece: Seq<char>, value: Seq<char>)
    requires
        piece.len() > 0,
        !piece.contains('&'),
        piece != "checksum"@,
        !"checksum="@.is_prefix_of(piece),
        !value.contains('&'),
    ensures
        query_left(piece) == Some(piece),
        query_left(piece.push('&') + ("checksum="@ + value)) == Some(piece),
        query_left(("checksum="@ + value).push('&') + piece) == Some(piece),
{
    text::one_piece(piece, '&');
    piece_is_named_otherwise(piece);
    assert forall|i: int| 0 <= i < text::pieces(piece, '&').len() implies stays(
        #[trigger] text::pieces(piece, '&')[i],
    ) by {}
    crate::download::query_without_checksum_survives(piece);
    crate::download::checksum_leaves_no_trace(piece, value, piece);
}

proof fn piece_is_named_otherwise(piece: Seq<char>)
    requires
        piece.len() > 0,
        piece != "checksum"@,
        !"checksum="@.is_prefix_of(piece),
    ensures
        stays(piece),
{
    reveal_strlit("checksum");
    reveal_strlit("checksum=");
    if let Some((name, _)) = text::cut(piece, '=') {
        if name == "checksum"@ {
            let i = text::first_place(piece, '=', 0)->0;
            place_is_in(piece, '=', 0);
            assert(name.len() == i);
            assert("checksum"@.len() == 8);
            assert forall|k: int| 0 <= k < 8 implies piece[k] == "checksum"@[k] by {
                assert(piece.subrange(0, i)[k] == piece[k]);
            }
            assert(piece.subrange(0, 9) =~= "checksum="@);
        }
    }
}

proof fn place_is_in(s: Seq<char>, c: char, from: int)
    requires
        from >= 0,
    ensures
        text::first_place(s, c, from) matches Some(i) ==> from <= i < s.len() && s[i] == c,
    decreases s.len() - from,
{
    if from < s.len() && s[from] != c {
        place_is_in(s, c, from + 1);
    }
}

/// The binary that is named for the platform itself is taken before one for any platform, and
/// one for any platform only where there is none for the platform.
pub proof fn own_platform_comes_first(
    doc: JsonView,
    binaries: Map<Seq<char>, JsonView>,
    platform: Seq<char>,
    url: Seq<char>,
)
    requires
        doc.at("binaries"@) == Some(JsonView::Object(binaries)),
    ensures
        binaries.contains_key(platform) && binaries[platform] == JsonView::Text(url) ==> binary_for(
            doc,
            platform,
        ) == Ok::<Seq<char>, InfoError>(url),
        !binaries.contains_key(platform) && binaries.contains_key("any"@) && binaries["any"@]
            == JsonView::Text(url) ==> binary_for(doc, platform) == Ok::<Seq<char>, InfoError>(url),
        binaries.contains_key(platform) && !(binaries[platform] is Text) ==> binary_for(
            doc,
            platform,
        ) == Err::<Seq<char>, InfoError>(InfoError::NoMatch),
        !binaries.contains_key(platform) && !binaries.contains_key("any"@) ==> binary_for(
            doc,
            platform,
        ) == Err::<Seq<char>, InfoError>(InfoError::NoMatch),
{
}

/// Without a `binaries` map a document names nothing.
pub proof fn binaries_have_to_be_a_map(doc: JsonView, platform: Seq<char>)
    ensures
        doc.at("binaries"@) is None || !(doc.at("binaries"@)->0 is Object) ==> binary_for(
            doc,
            platform,
        ) == Err::<Seq<char>, InfoError>(InfoError::NoBinaries),
{
}

/// A plan can be downloaded where its instructions are the URL of a document, or name a binary
/// for the platform; without instructions it cannot.
pub proof fn instructions_make_downloadable(doc: JsonView, url: Seq<char>, platform: Seq<char>)
    ensures
        !downloadable(None, platform),
        downloadable(Some(JsonView::Text(url)), platform),
        !(doc is Text) ==> downloadable(Some(doc), platform) == binary_for(doc, platform) is Ok,
{
}

/// A `file://` URL is read from the file that it names; any other URL is asked for.
pub proof fn file_urls_are_read_from_files(file: Seq<char>, url: Seq<char>, source: Source)
    ensures
        source_of("file://"@ + file, source) ==> (source matches Source::File(p) && p@ == file),
        !"file://"@.is_prefix_of(url) && source_of(url, source) ==> source is Remote,
{
    crate::laws::text::prefix_comes_off("file://"@, file);
}

/// A download without a checksum is refused exactly if checksums are insisted on; what is not
/// refused is downloaded from the URL that was given, and has to have the checksum that was
/// given.
pub proof fn checksums_are_insisted_on(
    strict: bool,
    url: Seq<char>,
    sum: Option<ChecksumView>,
    r: Result<Fetch, FetchError>,
)
    requires
        fetch_of(strict, url, sum, r),
    ensures
        r is Err <==> strict && sum is None,
        r matches Err(e) ==> (e matches FetchError::NoChecksum(u) && u@ == url),
        r matches Ok(f) ==> f.url@ == url && sum_view(f.checksum) == sum && source_of(
            url,
            f.source,
        ),
{
}

/// What was downloaded passes exactly if its digest, of the kind that was asked for, is the
/// one that was asked for; only what no checksum was asked of passes unseen.
pub proof fn digest_has_to_match(
    sum: Option<ChecksumView>,
    hasher: Option<Hasher>,
    r: Result<(), Mismatch>,
)
    requires
        checkable(sum, hasher),
        verified(sum, hasher, r),
    ensures
        sum is None ==> r is Ok,
        sum matches Some(ChecksumView::Sha256(digits)) ==> (hasher matches Some(h) && (r is Ok
            <==> hex_text(sha256(h.fed())) == digits)),
        sum matches Some(ChecksumView::Sha512(digits)) ==> (hasher matches Some(h) && (r is Ok
            <==> hex_text(sha512(h.fed())) == digits)),
{
}

/// A file is unpacked by what it starts with: the two bytes of gzip, the four bytes of a ZIP
/// archive, and else it is the binary itself.
pub proof fn archives_are_known_by_their_first_bytes(rest: Seq<u8>, magic: Seq<u8>)
    ensures
        packing_of(seq![0x1fu8, 0x8bu8] + rest) == Packing::TarGz,
        packing_of(seq![0x50u8, 0x4bu8, 0x03u8, 0x04u8] + rest) == Packing::Zip,
        !(magic.len() >= 2 && magic[0] == 0x1f && magic[1] == 0x8b) && !(magic.len() >= 4
            && magic[0] == 0x50 && magic[1] == 0x4b && magic[2] == 0x03 && magic[3] == 0x04)
            ==> packing_of(magic) == Packing::Plain,
{
    let gz = seq![0x1fu8, 0x8bu8];
    let zip = seq![0x50u8, 0x4bu8, 0x03u8, 0x04u8];
    assert((gz + rest).subrange(0, 2) =~= gz);
    assert((zip + rest).subrange(0, 4) =~= zip);
    if gz.is_prefix_of(zip + rest) {
        assert((zip + rest).subrange(0, 2)[0] == gz[0]);
    }
    if gz.is_prefix_of(magic) {
        assert(magic.subrange(0, 2)[0] == gz[0] && magic.subrange(0, 2)[1] == gz[1]);
    }
    if zip.is_prefix_of(magic) {
        assert(magic.subrange(0, 4)[0] == zip[0] && magic.subrange(0, 4)[1] == zip[1]);
        assert(magic.subrange(0, 4)[2] == zip[2] && magic.subrange(0, 4)[3] == zip[3]);
    }
}

/// An archive is searched from front to back: of two lists, one behind the other, the second
/// is looked at only where the first holds nothing.
pub proof fn search_takes_the_first(
    a: Seq<Node>,
    b: Seq<Node>,
    dir: Seq<char>,
    name: Seq<char>,
)
    ensures
        search(a + b, dir, name) == if search(a, dir, name) is Nowhere {
            search(b, dir, name)
        } else {
            search(a, dir, name)
        },
    decreases b.len(),
{
    reveal_with_fuel(search, 2);
    if b.len() == 0 {
        assert(a + b =~= a);
    } else {
        search_takes_the_first(a, b.drop_last(), dir, name);
        assert((a + b).drop_last() =~= a + b.drop_last());
        assert((a + b).last() == b.last());
    }
}

/// A file is found under its own name and in the directory where it lies; a directory is
/// searched as it would be by itself.
pub proof fn files_are_found_where_they_lie(
    file: String,
    inner: Vec<Node>,
    why: String,
    dir: Seq<char>,
    name: Seq<char>,
)
    ensures
        file@ == name ==> search(seq![Node::File(file)], dir, name) == Found::At(
            path::joined(dir, name),
        ),
        file@ != name ==> search(seq![Node::File(file)], dir, name) is Nowhere,
        search(seq![Node::Dir(file, inner)], dir, name) == search(
            inner@,
            path::joined(dir, file@),
            name,
        ),
        search(seq![Node::Other], dir, name) is Nowhere,
        search(seq![Node::Unreadable(why)], dir, name) == Found::Barred(why@),
        search(Seq::empty(), dir, name) is Nowhere,
{
    reveal_with_fuel(search, 2);
    reveal_with_fuel(crate::download::search_node, 2);
    let none = Seq::<Node>::empty();
    assert(seq![Node::File(file)].drop_last() =~= none);
    assert(seq![Node::Dir(file, inner)].drop_last() =~= none);
    assert(seq![Node::Other].drop_last() =~= none);
    assert(seq![Node::Unreadable(why)].drop_last() =~= none);
    let d = Node::Dir(file, inner);
    assert(seq![d].last() == d);
    assert(search(none, dir, name) is Nowhere);
    assert(search(seq![d], dir, name) == crate::download::search_node(d, dir, name));
}

/// The binary is taken from `bin`, else from the top of the archive, and only else searched
/// for.
pub proof fn binary_is_looked_for_in_order(
    dir: Seq<char>,
    name: Seq<char>,
    on_top: bool,
    nodes: Seq<Node>,
)
    ensures
        binary_place(dir, name, true, on_top, nodes) == Found::At(
            path::joined(path::joined(dir, "bin"@), name),
        ),
        binary_place(dir, name, false, true, nodes) == Found::At(path::joined(dir, name)),
        binary_place(dir, name, false, false, nodes) == search(nodes, dir, name),
{
}

/// A byte is written as its two halves, in lower-case digits.
pub proof fn bytes_are_written_in_two_digits(bytes: Seq<u8>, i: int)
    requires
        0 <= i < bytes.len(),
    ensures
        hex_text(bytes).len() == 2 * bytes.len(),
        hex_text(bytes)[2 * i] == "0123456789abcdef"@[(bytes[i] / 16) as int],
        hex_text(bytes)[2 * i + 1] == "0123456789abcdef"@[(bytes[i] % 16) as int],
{
    reveal_strlit("0123456789abcdef");
    let k = 2 * i;
    assert(k / 2 == i && k % 2 == 0);
    assert((k + 1) / 2 == i && (k + 1) % 2 == 1);
    assert(hex_text(bytes)[k] == hex_digit((bytes[k / 2] / 16) as nat));
    assert(hex_text(bytes)[k + 1] == hex_digit((bytes[(k + 1) / 2] % 16) as nat));
}

} // verus!
