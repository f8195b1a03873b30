//! Decoding and classification of an HTTP body: the content-coding cascade
//! and the media-type classifier.
use vstd::prelude::*;
use vstd::string::StringSliceAdditionalSpecFns;
use vstd::utf8::{decode_utf8, valid_utf8};
use crate::chunked::{dechunked, merge_chunks};
use crate::message::{
    chunked_token, content_encoding_name, content_type_name, get_header_value, header_named,
    transfer_encoding_name, bytes_equal, utf8_text, HeaderField,
};

verus! {

/// What a gzip stream decompresses to, if it is sound.
pub uninterp spec fn gzip_decoded(b: Seq<u8>) -> Option<Seq<u8>>;

/// What a zlib stream decompresses to, if it is sound.
pub uninterp spec fn zlib_decoded(b: Seq<u8>) -> Option<Seq<u8>>;

/// What a raw deflate stream decompresses to, if it is sound.
pub uninterp spec fn deflate_decoded(b: Seq<u8>) -> Option<Seq<u8>>;

/// The text that `String::from_utf8_lossy` makes of some bytes.
pub uninterp spec fn lossy_utf8(b: Seq<u8>) -> Seq<char>;

/// The text, and whether a replacement was made, of bytes decoded in the
/// character encoding that `label` names; `None` for an unknown label.
pub uninterp spec fn charset_decoded(label: Seq<char>, b: Seq<u8>) -> Option<(Seq<char>, bool)>;

/// The media type that a `Content-Type` value parses to.
pub uninterp spec fn media_type_of(s: Seq<char>) -> Option<MediaType>;

/// A parsed media type: top-level type, subtype, and the `charset` parameter.
#[derive(Clone, Debug)]
pub struct MediaType {
    pub top: Vec<u8>,
    pub sub: Vec<u8>,
    pub charset: Option<String>,
}

/// Relies on flate2::bufread::GzDecoder with std's read_to_end: decompresses
/// a gzip stream, failing on a corrupt one.
#[verifier::external_body]
fn gunzip(b: &[u8]) -> (r: Option<Vec<u8>>)
    ensures
        match r {
            Some(v) => gzip_decoded(b@) == Some(v@),
            None => gzip_decoded(b@) is None,
        },
{
    let mut out = Vec::new();
    match std::io::Read::read_to_end(&mut flate2::bufread::GzDecoder::new(b), &mut out) {
        Ok(_) => Some(out),
        Err(_) => None,
    }
}

/// Relies on flate2::bufread::ZlibDecoder with std's read_to_end:
/// decompresses a zlib stream, failing on a corrupt one.
#[verifier::external_body]
fn unzlib(b: &[u8]) -> (r: Option<Vec<u8>>)
    ensures
        match r {
            Some(v) => zlib_decoded(b@) == Some(v@),
            None => zlib_decoded(b@) is None,
        },
{
    let mut out = Vec::new();
    match std::io::Read::read_to_end(&mut flate2::bufread::ZlibDecoder::new(b), &mut out) {
        Ok(_) => Some(out),
        Err(_) => None,
    }
}

/// Relies on flate2::bufread::DeflateDecoder with std's read_to_end:
/// decompresses a raw deflate stream, failing on a corrupt one.
#[verifier::external_body]
fn inflate(b: &[u8]) -> (r: Option<Vec<u8>>)
    ensures
        match r {
            Some(v) => deflate_decoded(b@) == Some(v@),
            None => deflate_decoded(b@) is None,
        },
{
    let mut out = Vec::new();
    match std::io::Read::read_to_end(&mut flate2::bufread::DeflateDecoder::new(b), &mut out) {
        Ok(_) => Some(out),
        Err(_) => None,
    }
}

/// Relies on String::from_utf8_lossy: invalid sequences become U+FFFD, valid
/// UTF-8 is kept as it is.
#[verifier::external_body]
fn utf8_lossy(b: &[u8]) -> (r: String)
    ensures
        r@ == lossy_utf8(b@),
        valid_utf8(b@) ==> r@ == decode_utf8(b@),
{
    String::from_utf8_lossy(b).into_owned()
}

/// Relies on encoding_rs: Encoding::for_label looks the label up, and
/// decode_with_bom_removal decodes with replacement, telling whether any
/// replacement was made.
#[verifier::external_body]
fn decode_charset(label: &str, b: &[u8]) -> (r: Option<(String, bool)>)
    ensures
        match r {
            Some((t, bad)) => charset_decoded(label@, b@) == Some((t@, bad)),
            None => charset_decoded(label@, b@) is None,
        },
{
    match encoding_rs::Encoding::for_label(label.as_bytes()) {
        Some(enc) => {
            let (text, bad) = enc.decode_with_bom_removal(b);
            Some((text.into_owned(), bad))
        },
        None => None,
    }
}

/// Relies on mime's FromStr for Mime, with type_, subtype and get_param.
#[verifier::external_body]
fn parse_media_type(s: &str) -> (r: Option<MediaType>)
    ensures
        r == media_type_of(s@),
{
    match s.parse::<mime::Mime>() {
        Ok(m) => Some(MediaType {
            top: m.type_().as_str().as_bytes().to_vec(),
            sub: m.subtype().as_str().as_bytes().to_vec(),
            charset: m.get_param(mime::CHARSET).map(|c| c.as_str().to_string()),
        }),
        Err(_) => None,
    }
}

/// A classified HTTP body.
#[derive(Clone, Debug)]
pub enum HttpContentType {
    Empty,
    Unknown(Vec<u8>),
    TextDefaultDecoded(String),
    TextCorrectlyDecoded(String),
    TextMalformedDecoded(String),
    Image(Vec<u8>),
    Multipart(Vec<u8>),
    Encoded(String, Vec<u8>),
}

/// The model of a classified body.
pub enum ContentView {
    Empty,
    Unknown(Seq<u8>),
    TextDefaultDecoded(Seq<char>),
    TextCorrectlyDecoded(Seq<char>),
    TextMalformedDecoded(Seq<char>),
    Image(Seq<u8>),
    Multipart(Seq<u8>),
    Encoded(Seq<char>, Seq<u8>),
}

impl View for HttpContentType {
    type V = ContentView;

    open spec fn view(&self) -> ContentView {
        match self {
            HttpContentType::Empty => ContentView::Empty,
            HttpContentType::Unknown(b) => ContentView::Unknown(b@),
            HttpContentType::TextDefaultDecoded(t) => ContentView::TextDefaultDecoded(t@),
            HttpContentType::TextCorrectlyDecoded(t) => ContentView::TextCorrectlyDecoded(t@),
            HttpContentType::TextMalformedDecoded(t) => ContentView::TextMalformedDecoded(t@),
            HttpContentType::Image(b) => ContentView::Image(b@),
            HttpContentType::Multipart(b) => ContentView::Multipart(b@),
            HttpContentType::Encoded(a, b) => ContentView::Encoded(a@, b@),
        }
    }
}

/// Whether `,` followed by a space stands at position `i`.
pub open spec fn separator_at(s: Seq<u8>, i: int) -> bool {
    0 <= i && i + 1 < s.len() && s[i] == 0x2c && s[i + 1] == 0x20
}

/// The first separator at or after `i`, or the end of `s`.
pub open spec fn next_separator(s: Seq<u8>, i: int) -> int
    decreases s.len() - i,
{
    if i < 0 || i + 1 >= s.len() {
        s.len() as int
    } else if separator_at(s, i) {
        i
    } else {
        next_separator(s, i + 1)
    }
}

/// The tokens of a list separated by `, `, from position `start` on.
pub open spec fn tokens_from(s: Seq<u8>, start: int) -> Seq<Seq<u8>>
    decreases s.len() - start,
{
    let j = next_separator(s, start);
    if start < 0 || start > s.len() || j + 2 > s.len() || j < start {
        seq![s.subrange(start, s.len() as int)]
    } else {
        seq![s.subrange(start, j)] + tokens_from(s, j + 2)
    }
}

/// Undoes one content coding.
pub open spec fn decode_step(token: Seq<u8>, data: Seq<u8>) -> Option<Seq<u8>> {
    if token == "gzip".spec_bytes() {
        gzip_decoded(data)
    } else if token == "zlib".spec_bytes() {
        zlib_decoded(data)
    } else if token == "deflate".spec_bytes() {
        deflate_decoded(data)
    } else {
        None
    }
}

/// Undoes the codings of `tokens`, the last one first; an error names the
/// first coding that could not be undone.
pub open spec fn cascade(tokens: Seq<Seq<u8>>, data: Seq<u8>) -> Result<Seq<u8>, Seq<u8>>
    decreases tokens.len(),
{
    if tokens.len() == 0 {
        Ok(data)
    } else {
        match decode_step(tokens.last(), data) {
            Some(d) => cascade(tokens.drop_last(), d),
            None => Err(tokens.last()),
        }
    }
}

/// A body decoded by the codings that a `Content-Encoding` value lists.
pub open spec fn decoded_body(encoding: Seq<u8>, body: Seq<u8>) -> Result<Seq<u8>, Seq<u8>> {
    cascade(tokens_from(encoding, 0), body)
}

/// A copy of `s` from `a` up to `b`.
pub fn copy_range(s: &[u8], a: usize, b: usize) -> (r: Vec<u8>)
    requires
        a <= b <= s@.len(),
    ensures
        r@ == s@.subrange(a as int, b as int),
{
    let mut out: Vec<u8> = Vec::new();
    let mut k: usize = a;
    while k < b
        invariant
            a <= k <= b <= s@.len(),
            out@ == s@.subrange(a as int, k as int),
        decreases b - k,
    {
        out.push(s[k]);
        k = k + 1;
        assert(s@.subrange(a as int, k as int) =~= s@.subrange(a as int, k - 1) + seq![s@[k - 1]]);
    }
    out
}

proof fn lemma_next_separator_ge(s: Seq<u8>, i: int)
    requires
        0 <= i <= s.len(),
    ensures
        i <= next_separator(s, i) <= s.len(),
    decreases s.len() - i,
{
    if !(i + 1 >= s.len() || separator_at(s, i)) {
        lemma_next_separator_ge(s, i + 1);
    }
}

/// The tokens of a list separated by `, `.
pub fn split_tokens(s: &[u8]) -> (r: Vec<Vec<u8>>)
    ensures
        r@.map_values(|t: Vec<u8>| t@) == tokens_from(s@, 0),
{
    let len = s.len();
    let mut out: Vec<Vec<u8>> = Vec::new();
    let mut start: usize = 0;
    loop
        invariant
            len == s@.len(),
            start <= len,
            tokens_from(s@, 0) == out@.map_values(|t: Vec<u8>| t@) + tokens_from(s@, start as int),
        decreases len - start,
    {
        let mut i: usize = start;
        while len - i > 1 && !(s[i] == 0x2c && s[i + 1] == 0x20)
            invariant
                len == s@.len(),
                start <= i <= len,
                next_separator(s@, start as int) == next_separator(s@, i as int),
            decreases len - i,
        {
            i = i + 1;
        }
        let ghost before = out@;
        if len - i <= 1 {
            assert(next_separator(s@, i as int) == len);
            let t = copy_range(s, start, len);
            out.push(t);
            assert(out@.map_values(|t: Vec<u8>| t@) =~= before.map_values(|t: Vec<u8>| t@) + seq![
                s@.subrange(start as int, len as int),
            ]);
            return out;
        }
        assert(next_separator(s@, i as int) == i);
        let t = copy_range(s, start, i);
        out.push(t);
        assert(out@.map_values(|t: Vec<u8>| t@) =~= before.map_values(|t: Vec<u8>| t@) + seq![
            s@.subrange(start as int, i as int),
        ]);
        start = i + 2;
    }
}

/// Undoes one content coding named by `token`.
fn decode_one(token: &[u8], data: &[u8]) -> (r: Option<Vec<u8>>)
    ensures
        match r {
            Some(v) => decode_step(token@, data@) == Some(v@),
            None => decode_step(token@, data@) is None,
        },
{
    if bytes_equal(token, "gzip".as_bytes()) {
        gunzip(data)
    } else if bytes_equal(token, "zlib".as_bytes()) {
        unzlib(data)
    } else if bytes_equal(token, "deflate".as_bytes()) {
        inflate(data)
    } else {
        None
    }
}

/// Undoes the content codings that `encoding` lists, rightmost first, and
/// stops at the first that fails, naming it.
pub fn decode_payload(payload: &[u8], encoding: &[u8]) -> (r: Result<Vec<u8>, Vec<u8>>)
    ensures
        match r {
            Ok(v) => decoded_body(encoding@, payload@) == Ok::<Seq<u8>, Seq<u8>>(v@),
            Err(t) => decoded_body(encoding@, payload@) == Err::<Seq<u8>, Seq<u8>>(t@),
        },
{
    let tokens = split_tokens(encoding);
    let ghost toks = tokens@.map_values(|t: Vec<u8>| t@);
    let mut data = copy_range(payload, 0, payload.len());
    assert(payload@.subrange(0, payload@.len() as int) =~= payload@);
    let mut i: usize = tokens.len();
    assert(toks.subrange(0, i as int) =~= toks);
    while i > 0
        invariant
            i <= tokens@.len(),
            toks == tokens@.map_values(|t: Vec<u8>| t@),
            decoded_body(encoding@, payload@) == cascade(toks.subrange(0, i as int), data@),
        decreases i,
    {
        let ghost part = toks.subrange(0, i as int);
        assert(part.drop_last() =~= toks.subrange(0, i - 1));
        assert(part.last() == tokens@[i - 1]@);
        match decode_one(tokens[i - 1].as_slice(), data.as_slice()) {
            Some(d) => {
                data = d;
            },
            None => {
                assert(cascade(part, data@) == Err::<Seq<u8>, Seq<u8>>(tokens@[i - 1]@));
                assert(tokens[i - 1]@.subrange(0, tokens[i - 1]@.len() as int) =~= tokens[i - 1]@);
                return Err(copy_range(tokens[i - 1].as_slice(), 0, tokens[i - 1].len()));
            },
        }
        i = i - 1;
    }
    Ok(data)
}

/// Bytes read as UTF-8: valid text as it is, anything else with
/// replacement characters.
pub open spec fn utf8_read(b: Seq<u8>) -> Seq<char> {
    if valid_utf8(b) {
        decode_utf8(b)
    } else {
        lossy_utf8(b)
    }
}

/// The classification of a body of media type `m`; `failed` names a content
/// coding that could not be undone.
pub open spec fn classified(m: MediaType, body: Seq<u8>, failed: Option<Seq<u8>>) -> ContentView {
    if failed is Some {
        ContentView::Encoded(utf8_read(failed.unwrap()), body)
    } else if m.top@ == "text".spec_bytes() {
        match m.charset {
            Some(c) => match charset_decoded(c@, body) {
                Some((t, false)) => ContentView::TextCorrectlyDecoded(t),
                Some((t, true)) => ContentView::TextMalformedDecoded(t),
                None => ContentView::TextDefaultDecoded(utf8_read(body)),
            },
            None => ContentView::TextDefaultDecoded(utf8_read(body)),
        }
    } else if m.top@ == "image".spec_bytes() {
        ContentView::Image(body)
    } else if m.top@ == "multipart".spec_bytes() {
        ContentView::Multipart(body)
    } else {
        ContentView::Unknown(body)
    }
}

/// Classifies a decoded body by its media type. A charset that names no known
/// encoding is read as UTF-8 with replacement.
pub fn get_http_type(mime: &MediaType, payload: Vec<u8>, encoding: Option<&[u8]>) -> (r: HttpContentType)
    ensures
        r@ == classified(*mime, payload@, match encoding { Some(e) => Some(e@), None => None }),
{
    if let Some(e) = encoding {
        return HttpContentType::Encoded(utf8_lossy(e), payload);
    }
    if bytes_equal(mime.top.as_slice(), "text".as_bytes()) {
        if let Some(c) = &mime.charset {
            match decode_charset(c.as_str(), payload.as_slice()) {
                Some((t, false)) => return HttpContentType::TextCorrectlyDecoded(t),
                Some((t, true)) => return HttpContentType::TextMalformedDecoded(t),
                None => {},
            }
        }
        HttpContentType::TextDefaultDecoded(utf8_lossy(payload.as_slice()))
    } else if bytes_equal(mime.top.as_slice(), "image".as_bytes()) {
        HttpContentType::Image(payload)
    } else if bytes_equal(mime.top.as_slice(), "multipart".as_bytes()) {
        HttpContentType::Multipart(payload)
    } else {
        HttpContentType::Unknown(payload)
    }
}

/// The classified content of the body of a message with these headers. An
/// empty body is `Empty`; a chunked body whose framing is broken stays
/// encoded, tagged `chunked`.
pub open spec fn body_content(body: Seq<u8>, headers: Seq<HeaderField>) -> ContentView {
    if body.len() == 0 {
        ContentView::Empty
    } else {
        let data = if header_named(headers, transfer_encoding_name()) == Some(chunked_token()) {
            dechunked(body)
        } else {
            Some(body)
        };
        match data {
            None => ContentView::Encoded("chunked"@, body),
            Some(d) => typed_content(d, headers),
        }
    }
}

/// Whether `t` holds no `, ` separator.
pub open spec fn no_separator(t: Seq<u8>) -> bool {
    forall|i: int| !separator_at(t, i)
}

proof fn lemma_next_separator_scan(s: Seq<u8>, i: int, j: int)
    requires
        0 <= i <= j <= s.len(),
        forall|k: int| i <= k < j ==> !separator_at(s, k),
        separator_at(s, j) || j + 1 >= s.len(),
    ensures
        next_separator(s, i) == if separator_at(s, j) { j } else { s.len() as int },
    decreases j - i,
{
    if i < j && i + 1 < s.len() {
        lemma_next_separator_scan(s, i + 1, j);
    }
}

/// Codings listed as `first, second` are undone from the right: `second`
/// first, then `first` on what that gives; the error names the first coding
/// that could not be undone, and no other order is tried.
pub proof fn two_codings_undone_rightmost_first(first: Seq<u8>, second: Seq<u8>, data: Seq<u8>)
    requires
        no_separator(first),
        no_separator(second),
    ensures
        decoded_body(first + seq![0x2cu8, 0x20u8] + second, data) == match decode_step(second, data) {
            Some(d) => match decode_step(first, d) {
                Some(e) => Ok::<Seq<u8>, Seq<u8>>(e),
                None => Err(first),
            },
            None => Err(second),
        },
{
    let s = first + seq![0x2cu8, 0x20u8] + second;
    let n = first.len() as int;
    assert forall|k: int| 0 <= k < n implies !separator_at(s, k) by {
        if k + 1 < n {
            assert(separator_at(s, k) == separator_at(first, k));
        }
    }
    assert(separator_at(s, n));
    lemma_next_separator_scan(s, 0, n);
    assert forall|k: int| n + 2 <= k < s.len() implies !separator_at(s, k) by {
        if separator_at(s, k) {
            assert(separator_at(second, k - n - 2));
        }
    }
    lemma_next_separator_scan(s, n + 2, s.len() as int);
    assert(s.subrange(0, n) =~= first);
    assert(s.subrange(n + 2, s.len() as int) =~= second);
    let toks = tokens_from(s, 0);
    assert(tokens_from(s, n + 2) == seq![second]);
    assert(toks =~= seq![first, second]);
    assert(seq![first, second].drop_last() =~= seq![first]);
    assert(seq![first].drop_last() =~= Seq::<Seq<u8>>::empty());
    assert(decoded_body(s, data) == cascade(seq![first, second], data));
    match decode_step(second, data) {
        Some(d) => {
            assert(cascade(seq![first, second], data) == cascade(seq![first], d));
            match decode_step(first, d) {
                Some(e) => {
                    assert(cascade(seq![first], d) == cascade(Seq::<Seq<u8>>::empty(), e));
                },
                None => {},
            }
        },
        None => {},
    }
}

/// The classification of a body, with its transfer coding undone, by the
/// `Content-Type` and `Content-Encoding` headers.
pub open spec fn typed_content(d: Seq<u8>, headers: Seq<HeaderField>) -> ContentView {
            match header_named(headers, content_type_name()) {
                None => ContentView::Unknown(d),
                Some(ct) => {
                    match media_type_of(decode_utf8(ct)) {
                        None => ContentView::Unknown(d),
                        Some(m) => match header_named(headers, content_encoding_name()) {
                            Some(ce) => match decoded_body(ce, d) {
                                Ok(dd) => classified(m, dd, None),
                                Err(tok) => classified(m, d, Some(tok)),
                            },
                            None => classified(m, d, None),
                        },
                    }
                },
            }
}

/// Decodes and classifies the body of a complete message.
pub fn parse_http_payload(body: &[u8], headers: &[HeaderField]) -> (r: HttpContentType)
    ensures
        r@ == body_content(body@, headers@),
{
    if body.len() == 0 {
        return HttpContentType::Empty;
    }
    let mut payload = copy_range(body, 0, body.len());
    assert(body@.subrange(0, body@.len() as int) =~= body@);
    if let Some(te) = get_header_value("Transfer-Encoding".as_bytes(), headers) {
        if bytes_equal(te.as_slice(), "chunked".as_bytes()) {
            match merge_chunks(body) {
                Ok(m) => {
                    payload = m;
                },
                Err(_) => {
                    return HttpContentType::Encoded("chunked".to_string(), payload);
                },
            }
        }
    }
    classify_body(payload, headers)
}

/// Classifies a body, with its transfer coding undone, by its headers.
fn classify_body(payload: Vec<u8>, headers: &[HeaderField]) -> (r: HttpContentType)
    ensures
        r@ == typed_content(payload@, headers@),
{
    let ct = match get_header_value("Content-Type".as_bytes(), headers) {
        Some(v) => v,
        None => return HttpContentType::Unknown(payload),
    };
    let text = match utf8_text(ct.as_slice()) {
        Some(t) => t,
        None => return HttpContentType::Unknown(payload),
    };
    let mime = match parse_media_type(text.as_str()) {
        Some(m) => m,
        None => return HttpContentType::Unknown(payload),
    };
    if let Some(ce) = get_header_value("Content-Encoding".as_bytes(), headers) {
        return match decode_payload(payload.as_slice(), ce.as_slice()) {
            Ok(decoded) => get_http_type(&mime, decoded, None),
            Err(tok) => get_http_type(&mime, payload, Some(tok.as_slice())),
        };
    }
    get_http_type(&mime, payload, None)
}

} // verus!
