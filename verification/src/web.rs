//! The local journal browser: request parsing, the links that carry its state,
//! and the HTML it renders.
use vstd::prelude::*;

use crate::error::JottraceError;
use crate::storage::{decode_event_payload_prefix, IngestErrorSummary};
use crate::text::{
    chars_of, decimal, decimal_chars, find_char, first_index, is_ws, is_whitespace, lines,
    lines_of, lossy_string, owned, parse_i64, parse_i64_spec, parse_usize, parse_usize_spec,
    push_all, push_signed_decimal, push_str, rows, signed_decimal, slice_chars, split_char,
    split_on, str_eq, string_from_chars, utf8_lossy,
};

verus! {

pub const SESSION_PAGE_SIZE: usize = 50;

pub const EVENT_PAGE_SIZE: usize = 25;

pub const MAX_INGEST_ERRORS: usize = 50;

pub const MAX_QUERY_OFFSET: usize = 100000;

pub const MIN_PAYLOAD_SEARCH_CHARS: usize = 3;

pub const PAYLOAD_PREVIEW_BYTES: usize = 4096;

pub const PAYLOAD_PREVIEW_CHARS: usize = 280;

pub const READ_LIMIT_BYTES: usize = 8192;

#[derive(Debug, Clone, Default, PartialEq, Eq)]
pub struct JournalQuery {
    pub selected_source: Option<String>,
    pub selected_source_session_id: Option<String>,
    pub search: Option<String>,
    pub include_payload_search: bool,
    pub session_offset: usize,
    pub event_offset: usize,
    pub expanded_event: Option<EventKey>,
}

#[derive(Debug, Clone, Copy, PartialEq, Eq, Structural)]
pub struct EventKey {
    pub generation: i64,
    pub seq: i64,
}

#[derive(Debug, Clone, Copy, PartialEq, Eq, Structural)]
pub struct PageInfo {
    pub offset: usize,
    pub limit: usize,
    pub has_previous: bool,
    pub has_next: bool,
}

pub struct QueryView {
    pub selected_source: Option<Seq<char>>,
    pub selected_source_session_id: Option<Seq<char>>,
    pub search: Option<Seq<char>>,
    pub include_payload_search: bool,
    pub session_offset: usize,
    pub event_offset: usize,
    pub expanded_event: Option<EventKey>,
}

pub open spec fn text_opt(s: Option<String>) -> Option<Seq<char>> {
    match s {
        Some(t) => Some(t@),
        None => None,
    }
}

impl View for JournalQuery {
    type V = QueryView;

    open spec fn view(&self) -> QueryView {
        QueryView {
            selected_source: text_opt(self.selected_source),
            selected_source_session_id: text_opt(self.selected_source_session_id),
            search: text_opt(self.search),
            include_payload_search: self.include_payload_search,
            session_offset: self.session_offset,
            event_offset: self.event_offset,
            expanded_event: self.expanded_event,
        }
    }
}

// ---------------------------------------------------------------------------
// Paging
// ---------------------------------------------------------------------------
/// Keeps at most `limit` of the items fetched (one more than a page is fetched
/// to learn whether there is a next page).
pub fn paginate<T>(items: Vec<T>, offset: usize, limit: usize) -> (r: (Vec<T>, PageInfo))
    ensures
        r.0@ == (if items.len() > limit {
            items@.take(limit as int)
        } else {
            items@
        }),
        r.1 == (PageInfo { offset, limit, has_previous: offset > 0, has_next: items.len() > limit }),
{
    let mut items = items;
    let has_next = items.len() > limit;
    if has_next {
        items.truncate(limit);
    }
    (items, PageInfo { offset, limit, has_previous: offset > 0, has_next })
}

/// Offsets past `MAX_QUERY_OFFSET` are treated as 0.
pub fn bounded_offset(offset: usize) -> (r: usize)
    ensures
        r == if offset <= 100000 {
            offset
        } else {
            0
        },
{
    if offset <= MAX_QUERY_OFFSET {
        offset
    } else {
        0
    }
}

// ---------------------------------------------------------------------------
// Escaping
// ---------------------------------------------------------------------------
/// The HTML escape of one character.
pub open spec fn html_escape_char(c: char) -> Seq<char> {
    if c == '&' {
        "&amp;"@
    } else if c == '<' {
        "&lt;"@
    } else if c == '>' {
        "&gt;"@
    } else if c == '"' {
        "&quot;"@
    } else if c == '\'' {
        "&#39;"@
    } else {
        seq![c]
    }
}

/// `s` with `&`, `<`, `>`, `"` and `'` escaped for HTML text and attributes.
pub open spec fn html_escaped(s: Seq<char>) -> Seq<char>
    decreases s.len(),
{
    if s.len() == 0 {
        Seq::empty()
    } else {
        html_escaped(s.drop_last()) + html_escape_char(s.last())
    }
}

/// Appends the HTML escape of `value`.
pub fn html_escape_into(out: &mut Vec<char>, value: &str)
    ensures
        final(out)@ == old(out)@ + html_escaped(value@),
{
    let cs = chars_of(value);
    let mut i: usize = 0;
    while i < cs.len()
        invariant
            i <= cs.len(),
            cs@ == value@,
            out@ == old(out)@ + html_escaped(cs@.take(i as int)),
        decreases cs.len() - i,
    {
        let c = cs[i];
        let ghost before = out@;
        if c == '&' {
            push_str(out, "&amp;");
        } else if c == '<' {
            push_str(out, "&lt;");
        } else if c == '>' {
            push_str(out, "&gt;");
        } else if c == '"' {
            push_str(out, "&quot;");
        } else if c == '\'' {
            push_str(out, "&#39;");
        } else {
            out.push(c);
            proof {
                assert(out@ =~= before + seq![c]);
            }
        }
        proof {
            assert(cs@.take(i + 1).drop_last() =~= cs@.take(i as int));
            assert(out@ =~= old(out)@ + html_escaped(cs@.take(i + 1)));
        }
        i = i + 1;
    }
    proof {
        assert(cs@.take(cs.len() as int) =~= cs@);
    }
}

/// Bytes that stand for themselves in a URL component.
pub open spec fn url_unreserved(b: u8) -> bool {
    (65 <= b <= 90) || (97 <= b <= 122) || (48 <= b <= 57) || b == 45 || b == 95 || b == 46 || b
        == 126
}

/// The upper-case hexadecimal digit of `n` (below 16).
pub open spec fn hex_upper(n: u8) -> char {
    if n < 10 {
        ((n + 48) as u8) as char
    } else {
        ((n + 55) as u8) as char
    }
}

/// Percent-encoding of a byte string: unreserved bytes as themselves, every
/// other byte as `%` and two upper-case hex digits.
pub open spec fn url_encoded(b: Seq<u8>) -> Seq<char>
    decreases b.len(),
{
    if b.len() == 0 {
        Seq::empty()
    } else {
        (if url_unreserved(b[0]) {
            seq![b[0] as char]
        } else {
            seq!['%', hex_upper(b[0] / 16), hex_upper(b[0] % 16)]
        }) + url_encoded(b.skip(1))
    }
}

fn hex_digit_upper(n: u8) -> (c: char)
    requires
        n < 16,
    ensures
        c == hex_upper(n),
{
    if n < 10 {
        (n + 48) as char
    } else {
        (n + 55) as char
    }
}

/// Percent-encodes the UTF-8 bytes of `value`.
#[verifier::rlimit(40)]
#[verifier::spinoff_prover]
pub fn url_encode(value: &str) -> (r: String)
    ensures
        r@ == url_encoded(vstd::utf8::encode_utf8(value@)),
{
    let bytes = value.as_bytes();
    let mut out: Vec<char> = Vec::new();
    let mut i: usize = 0;
    proof {
        assert(bytes@.skip(0) =~= bytes@);
        assert(out@ + url_encoded(bytes@) =~= url_encoded(bytes@));
    }
    while i < bytes.len()
        invariant
            i <= bytes.len(),
            bytes@ == vstd::utf8::encode_utf8(value@),
            out@ + url_encoded(bytes@.skip(i as int)) == url_encoded(bytes@),
        decreases bytes.len() - i,
    {
        let b = bytes[i];
        let ghost before = out@;
        proof {
            assert(bytes@.skip(i as int)[0] == b);
            assert(bytes@.skip(i as int).skip(1) =~= bytes@.skip(i + 1));
        }
        if (65 <= b && b <= 90) || (97 <= b && b <= 122) || (48 <= b && b <= 57) || b == 45 || b
            == 95 || b == 46 || b == 126 {
            out.push(b as char);
            proof {
                assert(out@ =~= before + seq![b as char]);
            }
        } else {
            out.push('%');
            out.push(hex_digit_upper(b / 16));
            out.push(hex_digit_upper(b % 16));
            proof {
                assert(out@ =~= before + seq!['%', hex_upper(b / 16), hex_upper(b % 16)]);
            }
        }
        i = i + 1;
    }
    proof {
        assert(bytes@.skip(bytes.len() as int) =~= Seq::<u8>::empty());
        assert(out@ =~= out@ + url_encoded(Seq::<u8>::empty()));
    }
    string_from_chars(out.as_slice())
}


// ---------------------------------------------------------------------------
// Decoding
// ---------------------------------------------------------------------------
/// The value of a hexadecimal digit byte.
pub open spec fn hex_digit_value(b: u8) -> Option<u8> {
    if 48 <= b <= 57 {
        Some((b - 48) as u8)
    } else if 97 <= b <= 102 {
        Some((b - 97 + 10) as u8)
    } else if 65 <= b <= 70 {
        Some((b - 65 + 10) as u8)
    } else {
        None
    }
}

pub fn hex_value(byte: u8) -> (r: Option<u8>)
    ensures
        r == hex_digit_value(byte),
{
    if 48 <= byte && byte <= 57 {
        Some(byte - 48)
    } else if 97 <= byte && byte <= 102 {
        Some(byte - 97 + 10)
    } else if 65 <= byte && byte <= 70 {
        Some(byte - 65 + 10)
    } else {
        None
    }
}

/// Percent-decoding of a byte string: `%` and two hex digits (when a byte
/// follows them) is that byte, `+` is a space, anything else stands for itself.
pub open spec fn percent_decoded(b: Seq<u8>) -> Seq<u8>
    decreases b.len(),
{
    if b.len() == 0 {
        Seq::empty()
    } else if b[0] == 37 && 2 < b.len() && hex_digit_value(b[1]) is Some && hex_digit_value(b[2]) is Some {
        seq![(hex_digit_value(b[1])->0 * 16 + hex_digit_value(b[2])->0) as u8] + percent_decoded(
            b.skip(3),
        )
    } else if b[0] == 43 {
        seq![32u8] + percent_decoded(b.skip(1))
    } else {
        seq![b[0]] + percent_decoded(b.skip(1))
    }
}

/// A URL component as text: its bytes percent-decoded, read as UTF-8 (what
/// `String::from_utf8_lossy` makes of them where they are not valid UTF-8).
pub open spec fn url_decoded(value: Seq<char>) -> Seq<char> {
    let b = percent_decoded(vstd::utf8::encode_utf8(value));
    if vstd::utf8::valid_utf8(b) {
        vstd::utf8::decode_utf8(b)
    } else {
        utf8_lossy(b)
    }
}

/// Decodes a URL component (see `url_decoded`).
#[verifier::rlimit(40)]
#[verifier::spinoff_prover]
pub fn percent_decode(value: &str) -> (r: String)
    ensures
        r@ == url_decoded(value@),
{
    let bytes = value.as_bytes();
    let mut decoded: Vec<u8> = Vec::new();
    let mut index: usize = 0;
    proof {
        assert(bytes@.skip(0) =~= bytes@);
        assert(decoded@ + percent_decoded(bytes@) =~= percent_decoded(bytes@));
    }
    while index < bytes.len()
        invariant
            index <= bytes.len(),
            bytes@ == vstd::utf8::encode_utf8(value@),
            decoded@ + percent_decoded(bytes@.skip(index as int)) == percent_decoded(bytes@),
        decreases bytes.len() - index,
    {
        let ghost rest = bytes@.skip(index as int);
        let ghost before = decoded@;
        let b = bytes[index];
        proof {
            assert(rest[0] == b);
        }
        if b == 37 && bytes.len() - index > 2 {
            let high = hex_value(bytes[index + 1]);
            let low = hex_value(bytes[index + 2]);
            proof {
                assert(rest[1] == bytes@[index + 1]);
                assert(rest[2] == bytes@[index + 2]);
            }
            if high.is_some() && low.is_some() {
                let h = high.unwrap();
                let l = low.unwrap();
                decoded.push(h * 16 + l);
                proof {
                    assert(rest.skip(3) =~= bytes@.skip(index + 3));
                    assert(decoded@ =~= before + seq![(h * 16 + l) as u8]);
                }
                index = index + 3;
                continue;
            }
        }
        if b == 43 {
            decoded.push(32u8);
            proof {
                assert(decoded@ =~= before + seq![32u8]);
            }
        } else {
            decoded.push(b);
            proof {
                assert(decoded@ =~= before + seq![b]);
            }
        }
        proof {
            assert(rest.skip(1) =~= bytes@.skip(index + 1));
        }
        index = index + 1;
    }
    proof {
        assert(bytes@.skip(bytes.len() as int) =~= Seq::<u8>::empty());
        assert(decoded@ =~= decoded@ + percent_decoded(Seq::<u8>::empty()));
    }
    lossy_string(decoded.as_slice())
}

// ---------------------------------------------------------------------------
// Encoding then decoding
// ---------------------------------------------------------------------------
proof fn lemma_encode_utf8_concat(x: Seq<char>, y: Seq<char>)
    ensures
        vstd::utf8::encode_utf8(x + y) == vstd::utf8::encode_utf8(x) + vstd::utf8::encode_utf8(y),
    decreases x.len(),
{
    if x.len() == 0 {
        assert(x + y =~= y);
        assert(vstd::utf8::encode_utf8(x) + vstd::utf8::encode_utf8(y) =~= vstd::utf8::encode_utf8(y));
    } else {
        assert((x + y).drop_first() =~= x.drop_first() + y);
        assert((x + y)[0] == x[0]);
        lemma_encode_utf8_concat(x.drop_first(), y);
        assert(vstd::utf8::encode_utf8(x + y) =~= vstd::utf8::encode_scalar(x[0] as u32)
            + vstd::utf8::encode_utf8(x.drop_first()) + vstd::utf8::encode_utf8(y));
    }
}

/// An ASCII byte, as a character, encodes to itself.
proof fn lemma_ascii_encodes_to_itself(b: u8)
    requires
        b < 128,
    ensures
        vstd::utf8::encode_utf8(seq![b as char]) == seq![b],
{
    let v = (b as char) as u32;
    assert(v == b as u32);
    assert(v & 0x7Fu32 == v) by (bit_vector)
        requires
            v < 128,
    ;
    let sc = seq![b as char];
    assert(sc[0] == b as char);
    assert(sc.drop_first() =~= Seq::<char>::empty());
    assert(vstd::utf8::encode_utf8(sc.drop_first()) =~= Seq::<u8>::empty());
    assert(vstd::utf8::encode_utf8(sc) == vstd::utf8::encode_scalar(sc[0] as u32)
        + vstd::utf8::encode_utf8(sc.drop_first()));
    assert(vstd::utf8::encode_scalar(v) =~= seq![b]);
    assert(vstd::utf8::encode_utf8(sc) =~= seq![b]);
}

proof fn lemma_hex_upper_is_digit(n: u8)
    requires
        n < 16,
    ensures
        (hex_upper(n) as u32) < 128,
        hex_digit_value((hex_upper(n) as u32) as u8) == Some(n),
        hex_upper(n) == (((hex_upper(n) as u32) as u8) as char),
{
}

/// What percent-decoding makes of one encoded byte followed by anything.
proof fn lemma_decode_piece(b: u8, rest: Seq<u8>)
    ensures
        percent_decoded(vstd::utf8::encode_utf8(url_encoded(seq![b]).take(if url_unreserved(b) { 1 } else { 3 })) + rest)
            == seq![b] + percent_decoded(rest),
{
    let piece = url_encoded(seq![b]).take(if url_unreserved(b) { 1 } else { 3 });
    assert(seq![b].skip(1) =~= Seq::<u8>::empty());
    if url_unreserved(b) {
        assert(piece =~= seq![b as char]);
        lemma_ascii_encodes_to_itself(b);
        let all = seq![b] + rest;
        assert(all[0] == b);
        assert(all.skip(1) =~= rest);
    } else {
        let hi = b / 16;
        let lo = b % 16;
        lemma_hex_upper_is_digit(hi);
        lemma_hex_upper_is_digit(lo);
        let hb = (hex_upper(hi) as u32) as u8;
        let lb = (hex_upper(lo) as u32) as u8;
        assert(piece =~= seq![37u8 as char] + seq![hb as char] + seq![lb as char]);
        lemma_ascii_encodes_to_itself(37u8);
        lemma_ascii_encodes_to_itself(hb);
        lemma_ascii_encodes_to_itself(lb);
        lemma_encode_utf8_concat(seq![37u8 as char], seq![hb as char]);
        lemma_encode_utf8_concat(seq![37u8 as char] + seq![hb as char], seq![lb as char]);
        let bytes = vstd::utf8::encode_utf8(piece);
        assert(bytes =~= seq![37u8, hb, lb]);
        let all = bytes + rest;
        assert(all[0] == 37u8 && all[1] == hb && all[2] == lb);
        assert(all.skip(3) =~= rest);
        assert(hi * 16 + lo == b);
    }
}

/// Decoding what `url_encode` writes gives back the bytes it encoded.
proof fn lemma_url_bytes_round_trip(b: Seq<u8>)
    ensures
        percent_decoded(vstd::utf8::encode_utf8(url_encoded(b))) == b,
    decreases b.len(),
{
    if b.len() == 0 {
        assert(vstd::utf8::encode_utf8(url_encoded(b)) =~= Seq::<u8>::empty());
    } else {
        let first = seq![b[0]];
        let n: int = if url_unreserved(b[0]) { 1 } else { 3 };
        let piece = url_encoded(first).take(n);
        assert(first.skip(1) =~= Seq::<u8>::empty());
        assert(url_encoded(b) =~= piece + url_encoded(b.skip(1)));
        lemma_encode_utf8_concat(piece, url_encoded(b.skip(1)));
        lemma_decode_piece(b[0], vstd::utf8::encode_utf8(url_encoded(b.skip(1))));
        lemma_url_bytes_round_trip(b.skip(1));
        assert(seq![b[0]] + b.skip(1) =~= b);
    }
}

/// A link parameter written with `url_encode` reads back as the same text:
/// percent-decoding its encoding gives back the text's UTF-8 bytes, which
/// decode to the text, so `percent_decode(url_encode(s))` is `s`.
pub proof fn lemma_url_encode_round_trip(s: Seq<char>)
    ensures
        percent_decoded(vstd::utf8::encode_utf8(url_encoded(vstd::utf8::encode_utf8(s))))
            == vstd::utf8::encode_utf8(s),
        url_decoded(url_encoded(vstd::utf8::encode_utf8(s))) == s,
{
    lemma_url_bytes_round_trip(vstd::utf8::encode_utf8(s));
    vstd::utf8::encode_utf8_valid_utf8(s);
    vstd::utf8::encode_utf8_decode_utf8(s);
}

// ---------------------------------------------------------------------------
// Requests
// ---------------------------------------------------------------------------
/// The words of `s` (`str::split_whitespace`) as finished words and the word
/// being read.
pub open spec fn word_split(s: Seq<char>) -> (Seq<Seq<char>>, Seq<char>)
    decreases s.len(),
{
    if s.len() == 0 {
        (Seq::empty(), Seq::empty())
    } else {
        let (done, cur) = word_split(s.drop_last());
        if is_ws(s.last()) {
            if cur.len() > 0 {
                (done.push(cur), Seq::empty())
            } else {
                (done, Seq::empty())
            }
        } else {
            (done, cur.push(s.last()))
        }
    }
}

/// The whitespace-separated words of `s`.
pub open spec fn words(s: Seq<char>) -> Seq<Seq<char>> {
    let (done, cur) = word_split(s);
    if cur.len() > 0 {
        done.push(cur)
    } else {
        done
    }
}

fn split_words(s: &[char]) -> (out: Vec<Vec<char>>)
    ensures
        rows(out@) == words(s@),
{
    let mut done: Vec<Vec<char>> = Vec::new();
    let mut cur: Vec<char> = Vec::new();
    let mut i: usize = 0;
    while i < s.len()
        invariant
            i <= s.len(),
            (rows(done@), cur@) == word_split(s@.take(i as int)),
        decreases s.len() - i,
    {
        proof {
            assert(s@.take(i + 1).drop_last() =~= s@.take(i as int));
        }
        let ghost old_done = rows(done@);
        if is_whitespace(s[i]) {
            if cur.len() > 0 {
                let w = cur;
                let ghost wv = w@;
                done.push(w);
                cur = Vec::new();
                proof {
                    assert(rows(done@) =~= old_done.push(wv));
                }
            }
        } else {
            cur.push(s[i]);
        }
        i = i + 1;
    }
    proof {
        assert(s@.take(s.len() as int) =~= s@);
    }
    if cur.len() > 0 {
        let ghost old_done = rows(done@);
        let ghost cv = cur@;
        done.push(cur);
        proof {
            assert(rows(done@) =~= old_done.push(cv));
        }
    }
    done
}

/// The method and target of an HTTP request: the first two words of its first line.
pub open spec fn request_line_spec(request: Seq<char>) -> Option<(Seq<char>, Seq<char>)> {
    let ls = lines_of(request);
    if ls.len() == 0 {
        None
    } else {
        let ws = words(ls[0]);
        if ws.len() >= 2 {
            Some((ws[0], ws[1]))
        } else {
            None
        }
    }
}

pub fn request_line(request: &str) -> (r: Option<(String, String)>)
    ensures
        match r {
            Some((m, t)) => request_line_spec(request@) == Some((m@, t@)),
            None => request_line_spec(request@) is None,
        },
{
    let ls = lines(request);
    if ls.len() == 0 {
        return None;
    }
    let ws = split_words(ls[0].as_slice());
    if ws.len() < 2 {
        return None;
    }
    Some((string_from_chars(ws[0].as_slice()), string_from_chars(ws[1].as_slice())))
}

/// The path of a request target: what comes before its first `?`.
pub open spec fn target_path_spec(target: Seq<char>) -> Seq<char> {
    match first_index(target, '?') {
        Some(i) => target.take(i),
        None => target,
    }
}

pub fn target_path(target: &str) -> (r: String)
    ensures
        r@ == target_path_spec(target@),
{
    let tc = chars_of(target);
    match find_char(tc.as_slice(), '?') {
        Some(i) => {
            let p = slice_chars(tc.as_slice(), 0, i);
            proof {
                assert(p@ =~= tc@.take(i as int));
            }
            string_from_chars(p.as_slice())
        },
        None => owned(target),
    }
}

/// The query a page request asks for, read pair by pair.
pub struct QueryState {
    pub query: QueryView,
    pub generation: Option<i64>,
    pub seq: Option<i64>,
}

pub open spec fn empty_query() -> QueryView {
    QueryView {
        selected_source: None,
        selected_source_session_id: None,
        search: None,
        include_payload_search: false,
        session_offset: 0,
        event_offset: 0,
        expanded_event: None,
    }
}

/// An offset parameter: a decoded number no larger than `MAX_QUERY_OFFSET`, else 0.
pub open spec fn offset_param(value: Seq<char>) -> usize {
    match parse_usize_spec(url_decoded(value)) {
        Some(n) => if n <= 100000 {
            n
        } else {
            0
        },
        None => 0,
    }
}

/// A pair's key and value: split at its first `=`, or all key.
pub open spec fn key_value(pair: Seq<char>) -> (Seq<char>, Seq<char>) {
    match first_index(pair, '=') {
        Some(i) => (pair.take(i), pair.skip(i + 1)),
        None => (pair, Seq::empty()),
    }
}

pub open spec fn apply_pair(st: QueryState, pair: Seq<char>) -> QueryState {
    let (key, value) = key_value(pair);
    let q = st.query;
    if key == "source"@ {
        QueryState { query: QueryView { selected_source: Some(url_decoded(value)), ..q }, ..st }
    } else if key == "session"@ {
        QueryState {
            query: QueryView { selected_source_session_id: Some(url_decoded(value)), ..q },
            ..st
        }
    } else if key == "q"@ {
        QueryState { query: QueryView { search: Some(url_decoded(value)), ..q }, ..st }
    } else if key == "payload"@ {
        QueryState {
            query: QueryView { include_payload_search: value == "1"@ || value == "true"@, ..q },
            ..st
        }
    } else if key == "session_offset"@ {
        QueryState { query: QueryView { session_offset: offset_param(value), ..q }, ..st }
    } else if key == "event_offset"@ {
        QueryState { query: QueryView { event_offset: offset_param(value), ..q }, ..st }
    } else if key == "event_generation"@ {
        QueryState { generation: parse_i64_spec(url_decoded(value)), ..st }
    } else if key == "event_seq"@ {
        QueryState { seq: parse_i64_spec(url_decoded(value)), ..st }
    } else {
        st
    }
}

pub open spec fn apply_pairs(st: QueryState, pairs: Seq<Seq<char>>) -> QueryState
    decreases pairs.len(),
{
    if pairs.len() == 0 {
        st
    } else {
        apply_pair(apply_pairs(st, pairs.drop_last()), pairs.last())
    }
}

/// The query of a request target: its `&`-separated `key=value` pairs after
/// the first `?`, later pairs overriding earlier ones; an event is expanded
/// when both its generation and seq parse.
pub open spec fn query_from_target_spec(target: Seq<char>) -> QueryView {
    match first_index(target, '?') {
        None => empty_query(),
        Some(i) => {
            let st = apply_pairs(
                QueryState { query: empty_query(), generation: None, seq: None },
                split_on(target.skip(i + 1), '&'),
            );
            QueryView {
                expanded_event: match (st.generation, st.seq) {
                    (Some(generation), Some(seq)) => Some(EventKey { generation, seq }),
                    _ => None,
                },
                ..st.query
            }
        },
    }
}

fn offset_value(value: &str) -> (r: usize)
    ensures
        r == offset_param(value@),
{
    let d = percent_decode(value);
    let dc = chars_of(d.as_str());
    match parse_usize(dc.as_slice()) {
        Some(n) => bounded_offset(n),
        None => 0,
    }
}

fn i64_value(value: &str) -> (r: Option<i64>)
    ensures
        r == parse_i64_spec(url_decoded(value@)),
{
    let d = percent_decode(value);
    let dc = chars_of(d.as_str());
    parse_i64(dc.as_slice())
}

/// The query a request target carries (see `query_from_target_spec`).
#[verifier::rlimit(40)]
#[verifier::spinoff_prover]
pub fn journal_query_from_target(target: &str) -> (r: JournalQuery)
    ensures
        r@ == query_from_target_spec(target@),
{
    let tc = chars_of(target);
    let qpos = match find_char(tc.as_slice(), '?') {
        Some(i) => i,
        None => {
            return JournalQuery {
                selected_source: None,
                selected_source_session_id: None,
                search: None,
                include_payload_search: false,
                session_offset: 0,
                event_offset: 0,
                expanded_event: None,
            };
        },
    };
    let raw = slice_chars(tc.as_slice(), qpos + 1, tc.len());
    proof {
        assert(raw@ =~= target@.skip(qpos + 1));
    }
    let pairs = split_char(raw.as_slice(), '&');
    let mut query = JournalQuery {
        selected_source: None,
        selected_source_session_id: None,
        search: None,
        include_payload_search: false,
        session_offset: 0,
        event_offset: 0,
        expanded_event: None,
    };
    let mut event_generation: Option<i64> = None;
    let mut event_seq: Option<i64> = None;
    let mut k: usize = 0;
    while k < pairs.len()
        invariant
            k <= pairs.len(),
            query.expanded_event is None,
            apply_pairs(
                QueryState { query: empty_query(), generation: None, seq: None },
                rows(pairs@).take(k as int),
            ) == (QueryState { query: query@, generation: event_generation, seq: event_seq }),
        decreases pairs.len() - k,
    {
        proof {
            assert(rows(pairs@).take(k + 1).drop_last() =~= rows(pairs@).take(k as int));
        }
        let pair = &pairs[k];
        let (key, value): (Vec<char>, Vec<char>) = match find_char(pair.as_slice(), '=') {
            Some(i) => {
                let kk = slice_chars(pair.as_slice(), 0, i);
                let vv = slice_chars(pair.as_slice(), i + 1, pair.len());
                proof {
                    assert(kk@ =~= pair@.take(i as int));
                    assert(vv@ =~= pair@.skip(i + 1));
                }
                (kk, vv)
            },
            None => (slice_chars(pair.as_slice(), 0, pair.len()), Vec::new()),
        };
        proof {
            assert(pair@.subrange(0, pair@.len() as int) =~= pair@);
            assert(key_value(pair@) == (key@, value@));
        }
        let key_s = string_from_chars(key.as_slice());
        let value_s = string_from_chars(value.as_slice());
        let ks = key_s.as_str();
        let vs = value_s.as_str();
        if str_eq(ks, "source") {
            query.selected_source = Some(percent_decode(vs));
        } else if str_eq(ks, "session") {
            query.selected_source_session_id = Some(percent_decode(vs));
        } else if str_eq(ks, "q") {
            query.search = Some(percent_decode(vs));
        } else if str_eq(ks, "payload") {
            query.include_payload_search = str_eq(vs, "1") || str_eq(vs, "true");
        } else if str_eq(ks, "session_offset") {
            query.session_offset = offset_value(vs);
        } else if str_eq(ks, "event_offset") {
            query.event_offset = offset_value(vs);
        } else if str_eq(ks, "event_generation") {
            event_generation = i64_value(vs);
        } else if str_eq(ks, "event_seq") {
            event_seq = i64_value(vs);
        }
        k = k + 1;
    }
    proof {
        assert(rows(pairs@).take(pairs.len() as int) =~= rows(pairs@));
    }
    match (event_generation, event_seq) {
        (Some(generation), Some(seq)) => {
            query.expanded_event = Some(EventKey { generation, seq });
        },
        _ => {},
    }
    query
}

// ---------------------------------------------------------------------------
// Links
// ---------------------------------------------------------------------------
/// `?key=value` for the first parameter, `&key=value` after it; values are
/// percent-encoded.
pub open spec fn params_text(params: Seq<(Seq<char>, Seq<char>)>) -> Seq<char>
    decreases params.len(),
{
    if params.len() == 0 {
        Seq::empty()
    } else {
        params_text(params.drop_last()) + seq![
            if params.len() == 1 {
                '?'
            } else {
                '&'
            },
        ] + params.last().0 + "="@ + url_encoded(vstd::utf8::encode_utf8(params.last().1))
    }
}

/// The session a link selects: its source (if known) and session id.
#[derive(Clone, Copy)]
pub struct SelectedSessionKey<'a> {
    pub source: Option<&'a str>,
    pub source_session_id: &'a str,
}

pub open spec fn opt_str(s: Option<&str>) -> Option<Seq<char>> {
    match s {
        Some(t) => Some(t@),
        None => None,
    }
}

/// The parameters of a link to a page state, in order.
pub open spec fn href_params(
    selected: Option<(Option<Seq<char>>, Seq<char>)>,
    query: QueryView,
    session_offset: usize,
    event_offset: usize,
    expanded_event: Option<EventKey>,
) -> Seq<(Seq<char>, Seq<char>)> {
    let p1: Seq<(Seq<char>, Seq<char>)> = match selected {
        Some((source, id)) => match source {
            Some(src) => seq![("source"@, src), ("session"@, id)],
            None => seq![("session"@, id)],
        },
        None => Seq::empty(),
    };
    let p2 = match query.search {
        Some(q) => if q.len() > 0 {
            p1.push(("q"@, q))
        } else {
            p1
        },
        None => p1,
    };
    let p3 = if query.include_payload_search {
        p2.push(("payload"@, "1"@))
    } else {
        p2
    };
    let p4 = if session_offset > 0 {
        p3.push(("session_offset"@, decimal(session_offset as nat)))
    } else {
        p3
    };
    let p5 = if event_offset > 0 {
        p4.push(("event_offset"@, decimal(event_offset as nat)))
    } else {
        p4
    };
    match expanded_event {
        Some(e) => p5.push(("event_generation"@, signed_decimal(e.generation as int))).push(
            ("event_seq"@, signed_decimal(e.seq as int)),
        ),
        None => p5,
    }
}

/// A link to a page state; with no parameters, `/`.
pub open spec fn state_href_spec(
    selected: Option<(Option<Seq<char>>, Seq<char>)>,
    query: QueryView,
    session_offset: usize,
    event_offset: usize,
    expanded_event: Option<EventKey>,
) -> Seq<char> {
    let params = href_params(selected, query, session_offset, event_offset, expanded_event);
    if params.len() == 0 {
        "/"@
    } else {
        params_text(params)
    }
}

pub open spec fn selected_view(selected: Option<SelectedSessionKey>) -> Option<(Option<Seq<char>>, Seq<char>)> {
    match selected {
        Some(k) => Some((opt_str(k.source), k.source_session_id@)),
        None => None,
    }
}

/// Appends `?key=value` or `&key=value` with the value percent-encoded.
fn append_url_param(
    href: &mut Vec<char>,
    params: Ghost<Seq<(Seq<char>, Seq<char>)>>,
    key: &str,
    value: &str,
) -> (new_params: Ghost<Seq<(Seq<char>, Seq<char>)>>)
    requires
        old(href)@ == params_text(params@),
    ensures
        new_params@ == params@.push((key@, value@)),
        final(href)@ == params_text(new_params@),
{
    let ghost before = href@;
    proof {
        lemma_params_text_empty(params@);
        reveal_strlit("=");
    }
    if href.len() == 0 {
        href.push('?');
    } else {
        href.push('&');
    }
    push_str(href, key);
    href.push('=');
    let enc = url_encode(value);
    push_str(href, enc.as_str());
    let ghost np = params@.push((key@, value@));
    proof {
        assert(np.drop_last() =~= params@);
        lemma_params_text_empty(params@);
        assert(href@ =~= params_text(np));
    }
    Ghost(np)
}

proof fn lemma_params_text_empty(params: Seq<(Seq<char>, Seq<char>)>)
    ensures
        (params_text(params).len() == 0) == (params.len() == 0),
{
    if params.len() > 0 {
        assert(params_text(params).len() > 0);
    }
}

fn decimal_string(n: u64) -> (r: String)
    ensures
        r@ == decimal(n as nat),
{
    let d = decimal_chars(n);
    string_from_chars(d.as_slice())
}

fn signed_string(n: i64) -> (r: String)
    ensures
        r@ == signed_decimal(n as int),
{
    let mut out: Vec<char> = Vec::new();
    push_signed_decimal(&mut out, n);
    string_from_chars(out.as_slice())
}

/// A link to a page state (see `state_href_spec`).
#[verifier::rlimit(40)]
#[verifier::spinoff_prover]
pub fn state_href(
    selected_session: Option<SelectedSessionKey>,
    query: &JournalQuery,
    session_offset: usize,
    event_offset: usize,
    expanded_event: Option<EventKey>,
) -> (r: String)
    ensures
        r@ == state_href_spec(
            selected_view(selected_session),
            query@,
            session_offset,
            event_offset,
            expanded_event,
        ),
{
    let mut href: Vec<char> = Vec::new();
    let mut ps: Ghost<Seq<(Seq<char>, Seq<char>)>> = Ghost(Seq::empty());
    match selected_session {
        Some(session) => {
            match session.source {
                Some(source) => {
                    ps = append_url_param(&mut href, ps, "source", source);
                },
                None => {},
            }
            ps = append_url_param(&mut href, ps, "session", session.source_session_id);
        },
        None => {},
    }
    match &query.search {
        Some(search) => {
            if !search.as_str().is_empty() {
                ps = append_url_param(&mut href, ps, "q", search.as_str());
            }
        },
        None => {},
    }
    if query.include_payload_search {
        ps = append_url_param(&mut href, ps, "payload", "1");
    }
    if session_offset > 0 {
        let d = decimal_string(session_offset as u64);
        ps = append_url_param(&mut href, ps, "session_offset", d.as_str());
    }
    if event_offset > 0 {
        let d = decimal_string(event_offset as u64);
        ps = append_url_param(&mut href, ps, "event_offset", d.as_str());
    }
    match expanded_event {
        Some(event) => {
            let g = signed_string(event.generation);
            ps = append_url_param(&mut href, ps, "event_generation", g.as_str());
            let q = signed_string(event.seq);
            ps = append_url_param(&mut href, ps, "event_seq", q.as_str());
        },
        None => {},
    }
    proof {
        assert(ps@ =~= href_params(
            selected_view(selected_session),
            query@,
            session_offset,
            event_offset,
            expanded_event,
        ));
        lemma_params_text_empty(ps@);
    }
    if href.len() == 0 {
        owned("/")
    } else {
        string_from_chars(href.as_slice())
    }
}

// ---------------------------------------------------------------------------
// Reading a link back
// ---------------------------------------------------------------------------
/// One `key=value` parameter as a link writes it.
pub open spec fn param_text(p: (Seq<char>, Seq<char>)) -> Seq<char> {
    p.0 + "="@ + url_encoded(vstd::utf8::encode_utf8(p.1))
}

/// A parameter name that needs no escaping in a query: no `&` and no `=`.
pub open spec fn plain_key(k: Seq<char>) -> bool {
    forall|j: int| 0 <= j < k.len() ==> k[j] != '&' && k[j] != '='
}

/// Percent-encoded text holds neither `&` nor `=`.
proof fn lemma_encoded_is_plain(b: Seq<u8>)
    ensures
        plain_key(url_encoded(b)),
    decreases b.len(),
{
    if b.len() > 0 {
        lemma_encoded_is_plain(b.skip(1));
        let head = if url_unreserved(b[0]) {
            seq![b[0] as char]
        } else {
            seq!['%', hex_upper(b[0] / 16), hex_upper(b[0] % 16)]
        };
        assert(url_encoded(b) == head + url_encoded(b.skip(1)));
        assert forall|j: int| 0 <= j < url_encoded(b).len() implies url_encoded(b)[j] != '&'
            && url_encoded(b)[j] != '=' by {
            if j >= head.len() {
                assert(url_encoded(b)[j] == url_encoded(b.skip(1))[j - head.len()]);
            }
        }
    }
}

/// Splitting at `&` after appending text without `&` extends the last piece.
proof fn lemma_split_extends_last(s: Seq<char>, t: Seq<char>)
    requires
        forall|j: int| 0 <= j < t.len() ==> t[j] != '&',
    ensures
        split_on(s + t, '&') == split_on(s, '&').update(
            split_on(s, '&').len() - 1,
            split_on(s, '&').last() + t,
        ),
    decreases t.len(),
{
    crate::text::lemma_split_on_nonempty(s, '&');
    if t.len() == 0 {
        assert(s + t =~= s);
        assert(split_on(s, '&').last() + t =~= split_on(s, '&').last());
        assert(split_on(s, '&').update(split_on(s, '&').len() - 1, split_on(s, '&').last())
            =~= split_on(s, '&'));
    } else {
        let u = t.drop_last();
        lemma_split_extends_last(s, u);
        assert((s + t).drop_last() =~= s + u);
        assert((s + t).last() == t.last());
        let prev = split_on(s + u, '&');
        assert(prev.last() =~= split_on(s, '&').last() + u);
        assert(prev.last().push(t.last()) =~= split_on(s, '&').last() + t);
        assert(split_on(s + t, '&') =~= split_on(s, '&').update(
            split_on(s, '&').len() - 1,
            split_on(s, '&').last() + t,
        ));
    }
}

/// `&` followed by text without `&` adds that text as a new last piece.
proof fn lemma_split_appends_piece(s: Seq<char>, t: Seq<char>)
    requires
        forall|j: int| 0 <= j < t.len() ==> t[j] != '&',
    ensures
        split_on(s + seq!['&'] + t, '&') == split_on(s, '&').push(t),
{
    let s1 = s + seq!['&'];
    assert(s1.drop_last() =~= s);
    assert(s1.last() == '&');
    lemma_split_extends_last(s1, t);
    assert(split_on(s1, '&') == split_on(s, '&').push(Seq::<char>::empty()));
    assert(Seq::<char>::empty() + t =~= t);
    assert(split_on(s1, '&').update(split_on(s1, '&').len() - 1, split_on(s1, '&').last() + t)
        =~= split_on(s, '&').push(t));
}

/// A written parameter holds no `&`, and its first `=` ends its name.
proof fn lemma_param_text(k: Seq<char>, v: Seq<char>)
    requires
        plain_key(k),
    ensures
        forall|j: int| 0 <= j < param_text((k, v)).len() ==> param_text((k, v))[j] != '&',
        key_value(param_text((k, v))) == (k, url_encoded(vstd::utf8::encode_utf8(v))),
{
    reveal_strlit("=");
    let e = url_encoded(vstd::utf8::encode_utf8(v));
    lemma_encoded_is_plain(vstd::utf8::encode_utf8(v));
    let t = param_text((k, v));
    assert(t =~= k + seq!['='] + e);
    assert forall|j: int| 0 <= j < t.len() implies t[j] != '&' by {
        if j > k.len() {
            assert(t[j] == e[j - k.len() - 1]);
        }
    }
    crate::text::lemma_first_index(t, '=');
    assert(t[k.len() as int] == '=');
    match first_index(t, '=') {
        Some(i) => {
            if i < k.len() {
                assert(t[i] == k[i]);
            }
            assert(i == k.len());
            assert(t.take(i) =~= k);
            assert(t.skip(i + 1) =~= e);
        },
        None => {},
    }
}

/// The pieces a written query splits into are its parameters, in order.
proof fn lemma_params_split(ps: Seq<(Seq<char>, Seq<char>)>)
    requires
        ps.len() >= 1,
        forall|i: int| 0 <= i < ps.len() ==> plain_key(#[trigger] ps[i].0),
    ensures
        params_text(ps).len() >= 1,
        params_text(ps)[0] == '?',
        split_on(params_text(ps).skip(1), '&') == ps.map_values(|p: (Seq<char>, Seq<char>)| param_text(p)),
    decreases ps.len(),
{
    reveal_strlit("=");
    let last = ps.last();
    lemma_param_text(last.0, last.1);
    let piece = param_text(last);
    assert(last.0 + "="@ + url_encoded(vstd::utf8::encode_utf8(last.1)) == piece);
    if ps.len() == 1 {
        assert(params_text(ps.drop_last()) =~= Seq::<char>::empty());
        assert(params_text(ps) =~= seq!['?'] + piece);
        assert(params_text(ps).skip(1) =~= Seq::<char>::empty() + piece);
        lemma_split_extends_last(Seq::<char>::empty(), piece);
        assert(split_on(Seq::<char>::empty(), '&') == seq![Seq::<char>::empty()]);
        assert(ps.map_values(|p: (Seq<char>, Seq<char>)| param_text(p)) =~= seq![piece]);
        assert(Seq::<char>::empty() + piece =~= piece);
    } else {
        let init = ps.drop_last();
        assert forall|i: int| 0 <= i < init.len() implies plain_key(#[trigger] init[i].0) by {
            assert(init[i] == ps[i]);
        }
        lemma_params_split(init);
        let before = params_text(init);
        assert(params_text(ps) =~= before + seq!['&'] + piece);
        assert(params_text(ps).skip(1) =~= before.skip(1) + seq!['&'] + piece);
        lemma_split_appends_piece(before.skip(1), piece);
        assert(ps.map_values(|p: (Seq<char>, Seq<char>)| param_text(p)) =~= init.map_values(
            |p: (Seq<char>, Seq<char>)| param_text(p),
        ).push(piece));
    }
}

/// Reading one written parameter: its name, and its value decoded back.
proof fn lemma_read_param(k: Seq<char>, v: Seq<char>)
    requires
        plain_key(k),
    ensures
        key_value(param_text((k, v))) == (k, url_encoded(vstd::utf8::encode_utf8(v))),
        url_decoded(url_encoded(vstd::utf8::encode_utf8(v))) == v,
{
    lemma_param_text(k, v);
    lemma_url_encode_round_trip(v);
}

/// The parameters of a written query, read in order from `st`.
pub open spec fn read_params(st: QueryState, ps: Seq<(Seq<char>, Seq<char>)>) -> QueryState {
    apply_pairs(st, ps.map_values(|p: (Seq<char>, Seq<char>)| param_text(p)))
}

proof fn lemma_read_params_push(st: QueryState, ps: Seq<(Seq<char>, Seq<char>)>, p: (Seq<char>, Seq<char>))
    ensures
        read_params(st, ps.push(p)) == apply_pair(read_params(st, ps), param_text(p)),
{
    let m = ps.push(p).map_values(|q: (Seq<char>, Seq<char>)| param_text(q));
    assert(m.drop_last() =~= ps.map_values(|q: (Seq<char>, Seq<char>)| param_text(q)));
    assert(m.last() == param_text(p));
}

/// Every parameter name of `ps` is plain.
pub open spec fn keys_plain(ps: Seq<(Seq<char>, Seq<char>)>) -> bool {
    forall|i: int| 0 <= i < ps.len() ==> plain_key(#[trigger] ps[i].0)
}

proof fn lemma_keys_plain_push(ps: Seq<(Seq<char>, Seq<char>)>, p: (Seq<char>, Seq<char>))
    requires
        keys_plain(ps),
        plain_key(p.0),
    ensures
        keys_plain(ps.push(p)),
{
    assert forall|i: int| 0 <= i < ps.push(p).len() implies plain_key(#[trigger] ps.push(p)[i].0) by {
        if i < ps.len() {
            assert(ps.push(p)[i] == ps[i]);
        }
    }
}

/// `1`, the value a link gives the payload flag, is written as itself.
proof fn lemma_one_is_written_as_itself()
    ensures
        url_encoded(vstd::utf8::encode_utf8("1"@)) == "1"@,
{
    reveal_strlit("1");
    assert("1"@ =~= seq![49u8 as char]);
    lemma_ascii_encodes_to_itself(49u8);
    let b = seq![49u8];
    assert(b.skip(1) =~= Seq::<u8>::empty());
    assert(url_encoded(b) =~= seq![49u8 as char] + url_encoded(Seq::<u8>::empty()));
    assert(url_encoded(b) =~= "1"@);
}

/// The page state a link stands for, as a request reads it back.
pub open spec fn href_query(
    selected: Option<(Option<Seq<char>>, Seq<char>)>,
    query: QueryView,
    session_offset: usize,
    event_offset: usize,
    expanded_event: Option<EventKey>,
) -> QueryView {
    QueryView {
        selected_source: match selected {
            Some((source, _)) => source,
            None => None,
        },
        selected_source_session_id: match selected {
            Some((_, id)) => Some(id),
            None => None,
        },
        search: match query.search {
            Some(q) => if q.len() > 0 {
                Some(q)
            } else {
                None
            },
            None => None,
        },
        include_payload_search: query.include_payload_search,
        session_offset,
        event_offset,
        expanded_event,
    }
}

proof fn lemma_keys_are_plain()
    ensures
        plain_key("source"@),
        plain_key("session"@),
        plain_key("q"@),
        plain_key("payload"@),
        plain_key("session_offset"@),
        plain_key("event_offset"@),
        plain_key("event_generation"@),
        plain_key("event_seq"@),
{
    reveal_strlit("source");
    reveal_strlit("session");
    reveal_strlit("q");
    reveal_strlit("payload");
    reveal_strlit("session_offset");
    reveal_strlit("event_offset");
    reveal_strlit("event_generation");
    reveal_strlit("event_seq");
}

/// A link written by `state_href` reads back, through
/// `journal_query_from_target`, as the page state it was written for: the
/// selected session, a non-empty search, the payload flag, both offsets and
/// the expanded event. Offsets read back up to `MAX_QUERY_OFFSET`, the largest
/// a request keeps.
#[verifier::rlimit(60)]
#[verifier::spinoff_prover]
pub proof fn lemma_state_href_reads_back(
    selected: Option<(Option<Seq<char>>, Seq<char>)>,
    query: QueryView,
    session_offset: usize,
    event_offset: usize,
    expanded_event: Option<EventKey>,
)
    requires
        session_offset <= 100000,
        event_offset <= 100000,
    ensures
        query_from_target_spec(
            state_href_spec(selected, query, session_offset, event_offset, expanded_event),
        ) == href_query(selected, query, session_offset, event_offset, expanded_event),
{
    reveal_strlit("source");
    reveal_strlit("session");
    reveal_strlit("q");
    reveal_strlit("payload");
    reveal_strlit("1");
    reveal_strlit("true");
    reveal_strlit("session_offset");
    reveal_strlit("event_offset");
    reveal_strlit("event_generation");
    reveal_strlit("event_seq");
    reveal_strlit("/");
    lemma_keys_are_plain();
    let ps = href_params(selected, query, session_offset, event_offset, expanded_event);
    let expected = href_query(selected, query, session_offset, event_offset, expanded_event);
    let none: Seq<(Seq<char>, Seq<char>)> = Seq::empty();
    let st0 = QueryState { query: empty_query(), generation: None, seq: None };
    assert(none.map_values(|p: (Seq<char>, Seq<char>)| param_text(p)) =~= Seq::<Seq<char>>::empty());
    assert(read_params(st0, none) == st0);
    // The selected session.
    let p1: Seq<(Seq<char>, Seq<char>)> = match selected {
        Some((source, id)) => match source {
            Some(src) => seq![("source"@, src), ("session"@, id)],
            None => seq![("session"@, id)],
        },
        None => Seq::empty(),
    };
    let q1 = QueryView {
        selected_source: expected.selected_source,
        selected_source_session_id: expected.selected_source_session_id,
        ..empty_query()
    };
    let st1 = QueryState { query: q1, generation: None, seq: None };
    assert(read_params(st0, p1) == st1 && keys_plain(p1)) by {
        match selected {
            Some((source, id)) => match source {
                Some(src) => {
                    let a = none.push(("source"@, src));
                    assert(p1 =~= a.push(("session"@, id)));
                    lemma_read_params_push(st0, none, ("source"@, src));
                    lemma_read_param("source"@, src);
                    lemma_read_params_push(st0, a, ("session"@, id));
                    lemma_read_param("session"@, id);
                    lemma_keys_plain_push(none, ("source"@, src));
                    lemma_keys_plain_push(a, ("session"@, id));
                },
                None => {
                    assert(p1 =~= none.push(("session"@, id)));
                    lemma_read_params_push(st0, none, ("session"@, id));
                    lemma_read_param("session"@, id);
                    lemma_keys_plain_push(none, ("session"@, id));
                },
            },
            None => {},
        }
    }
    // The search.
    let p2 = match query.search {
        Some(q) => if q.len() > 0 {
            p1.push(("q"@, q))
        } else {
            p1
        },
        None => p1,
    };
    let st2 = QueryState { query: QueryView { search: expected.search, ..q1 }, ..st1 };
    assert(read_params(st0, p2) == st2 && keys_plain(p2)) by {
        match query.search {
            Some(q) => if q.len() > 0 {
                lemma_read_params_push(st0, p1, ("q"@, q));
                lemma_read_param("q"@, q);
                lemma_keys_plain_push(p1, ("q"@, q));
            },
            None => {},
        }
    }
    // The payload flag.
    let p3 = if query.include_payload_search {
        p2.push(("payload"@, "1"@))
    } else {
        p2
    };
    let st3 = QueryState {
        query: QueryView { include_payload_search: query.include_payload_search, ..st2.query },
        ..st2
    };
    assert(read_params(st0, p3) == st3 && keys_plain(p3)) by {
        if query.include_payload_search {
            lemma_read_params_push(st0, p2, ("payload"@, "1"@));
            lemma_read_param("payload"@, "1"@);
            lemma_one_is_written_as_itself();
            lemma_keys_plain_push(p2, ("payload"@, "1"@));
        }
    }
    // The offsets.
    let p4 = if session_offset > 0 {
        p3.push(("session_offset"@, decimal(session_offset as nat)))
    } else {
        p3
    };
    let st4 = QueryState { query: QueryView { session_offset, ..st3.query }, ..st3 };
    assert(read_params(st0, p4) == st4 && keys_plain(p4)) by {
        if session_offset > 0 {
            let d = decimal(session_offset as nat);
            lemma_read_params_push(st0, p3, ("session_offset"@, d));
            lemma_read_param("session_offset"@, d);
            crate::text::lemma_parse_decimal(session_offset as u64);
            lemma_keys_plain_push(p3, ("session_offset"@, d));
        }
    }
    let p5 = if event_offset > 0 {
        p4.push(("event_offset"@, decimal(event_offset as nat)))
    } else {
        p4
    };
    let st5 = QueryState { query: QueryView { event_offset, ..st4.query }, ..st4 };
    assert(read_params(st0, p5) == st5 && keys_plain(p5)) by {
        if event_offset > 0 {
            let d = decimal(event_offset as nat);
            lemma_read_params_push(st0, p4, ("event_offset"@, d));
            lemma_read_param("event_offset"@, d);
            crate::text::lemma_parse_decimal(event_offset as u64);
            lemma_keys_plain_push(p4, ("event_offset"@, d));
        }
    }
    // The expanded event.
    let st6 = match expanded_event {
        Some(e) => QueryState { generation: Some(e.generation), seq: Some(e.seq), ..st5 },
        None => st5,
    };
    assert(read_params(st0, ps) == st6 && keys_plain(ps)) by {
        match expanded_event {
            Some(e) => {
                let g = signed_decimal(e.generation as int);
                let n = signed_decimal(e.seq as int);
                let p6 = p5.push(("event_generation"@, g));
                assert(ps == p6.push(("event_seq"@, n)));
                lemma_read_params_push(st0, p5, ("event_generation"@, g));
                lemma_read_param("event_generation"@, g);
                crate::text::lemma_parse_signed_decimal(e.generation);
                lemma_read_params_push(st0, p6, ("event_seq"@, n));
                lemma_read_param("event_seq"@, n);
                crate::text::lemma_parse_signed_decimal(e.seq);
                lemma_keys_plain_push(p5, ("event_generation"@, g));
                lemma_keys_plain_push(p6, ("event_seq"@, n));
            },
            None => {
                assert(ps == p5);
            },
        }
    }
    if ps.len() == 0 {
        assert("/"@.drop_first() =~= Seq::<char>::empty());
        assert(first_index(Seq::<char>::empty(), '?') is None);
        assert(first_index("/"@, '?') is None);
        assert(expected == empty_query());
    } else {
        lemma_params_split(ps);
        let target = params_text(ps);
        assert(state_href_spec(selected, query, session_offset, event_offset, expanded_event) == target);
        assert(first_index(target, '?') == Some(0int));
        assert(apply_pairs(st0, split_on(target.skip(1), '&')) == st6);
    }
}

// ---------------------------------------------------------------------------
// Views and search
// ---------------------------------------------------------------------------
#[derive(Debug, Clone, PartialEq, Eq)]
pub struct JournalView {
    pub db_path: String,
    pub sessions: Vec<JournalSession>,
    pub session_page: PageInfo,
    pub selected_session: Option<JournalSession>,
    pub events: Vec<JournalEvent>,
    pub event_page: Option<PageInfo>,
    pub expanded_event: Option<JournalEvent>,
    pub unresolved_ingest_errors: Vec<IngestErrorSummary>,
}

#[derive(Debug, Clone, PartialEq, Eq)]
pub struct JournalSession {
    pub source: String,
    pub source_session_id: String,
    pub file_path: Option<String>,
    pub cwd: Option<String>,
    pub parent_source_session_id: Option<String>,
    pub started_at: Option<String>,
    pub ended_at: Option<String>,
    pub event_count: u64,
}

#[derive(Debug, Clone, PartialEq, Eq)]
pub struct JournalEvent {
    pub generation: i64,
    pub seq: i64,
    pub ts: Option<String>,
    pub codec: String,
    pub payload_size: u64,
    pub payload_preview: String,
    pub payload_error: Option<String>,
}

/// How sessions (and payloads) are searched.
#[derive(Debug, Clone, PartialEq, Eq)]
pub struct SearchPattern {
    /// SQL `LIKE` pattern matching the search text anywhere.
    pub like: Option<String>,
    /// Lower-cased text looked for in decoded payload previews.
    pub payload_needle: Option<String>,
    pub decoded_payload_session_ids: Vec<i64>,
}

/// Whether `session` is the one selected by id and, when given, source.
pub fn session_matches(session: &JournalSession, selected_source: Option<&str>, source_session_id: &str) -> (r: bool)
    ensures
        r == (session.source_session_id@ == source_session_id@ && match selected_source {
            Some(src) => session.source@ == src@,
            None => true,
        }),
{
    str_eq(session.source_session_id.as_str(), source_session_id) && match selected_source {
        Some(src) => str_eq(session.source.as_str(), src),
        None => true,
    }
}

/// The SQL `LIKE` pattern for "contains `search`", with `%`, `_` and `\` escaped by `\`.
pub open spec fn like_escaped(s: Seq<char>) -> Seq<char>
    decreases s.len(),
{
    if s.len() == 0 {
        Seq::empty()
    } else {
        like_escaped(s.drop_last()) + if s.last() == '%' || s.last() == '_' || s.last() == '\\' {
            seq!['\\', s.last()]
        } else {
            seq![s.last()]
        }
    }
}

pub fn like_contains_pattern(search: &str) -> (r: String)
    ensures
        r@ == seq!['%'] + like_escaped(search@) + seq!['%'],
{
    let cs = chars_of(search);
    let mut out: Vec<char> = Vec::new();
    out.push('%');
    let mut i: usize = 0;
    while i < cs.len()
        invariant
            i <= cs.len(),
            cs@ == search@,
            out@ == seq!['%'] + like_escaped(cs@.take(i as int)),
        decreases cs.len() - i,
    {
        let c = cs[i];
        let ghost before = out@;
        if c == '%' || c == '_' || c == '\\' {
            out.push('\\');
            out.push(c);
        } else {
            out.push(c);
        }
        proof {
            assert(cs@.take(i + 1).drop_last() =~= cs@.take(i as int));
            assert(out@ =~= seq!['%'] + like_escaped(cs@.take(i + 1)));
        }
        i = i + 1;
    }
    proof {
        assert(cs@.take(cs.len() as int) =~= cs@);
    }
    out.push('%');
    string_from_chars(out.as_slice())
}

/// What `str::to_lowercase` makes of a text.
pub uninterp spec fn lowercase(s: Seq<char>) -> Seq<char>;

/// `str::to_lowercase`.
#[verifier::external_body]
fn to_lowercase(s: &str) -> (r: String)
    ensures
        r@ == lowercase(s@),
{
    s.to_lowercase()
}

/// How a search is run: nothing for a blank search; otherwise the trimmed
/// text anywhere in the session fields, and, when payload search is asked for
/// and the text has at least three characters, its lower case in payloads.
#[verifier::rlimit(40)]
#[verifier::spinoff_prover]
pub fn search_pattern(search: Option<&str>, include_payload_search: bool) -> (r: SearchPattern)
    ensures
        r.decoded_payload_session_ids@.len() == 0,
        match search {
            None => r.like is None && r.payload_needle is None,
            Some(text) => {
                let t = choose|t: Seq<char>| crate::text::trimmed(text@, t);
                if t.len() == 0 {
                    r.like is None && r.payload_needle is None
                } else {
                    &&& r.like is Some
                    &&& r.like->0@ == seq!['%'] + like_escaped(t) + seq!['%']
                    &&& if include_payload_search && t.len() >= 3 {
                        r.payload_needle is Some && r.payload_needle->0@ == lowercase(t)
                    } else {
                        r.payload_needle is None
                    }
                }
            },
        },
{
    let text = match search {
        Some(t) => t,
        None => {
            return SearchPattern { like: None, payload_needle: None, decoded_payload_session_ids: Vec::new() };
        },
    };
    let tc = chars_of(text);
    let t = crate::text::trim(tc.as_slice());
    proof {
        let u = choose|u: Seq<char>| crate::text::trimmed(text@, u);
        crate::text::lemma_trimmed_unique(text@, t@, u);
    }
    if t.len() == 0 {
        return SearchPattern { like: None, payload_needle: None, decoded_payload_session_ids: Vec::new() };
    }
    let ts = string_from_chars(t.as_slice());
    let include_payload = include_payload_search && t.len() >= MIN_PAYLOAD_SEARCH_CHARS;
    SearchPattern {
        like: Some(like_contains_pattern(ts.as_str())),
        payload_needle: if include_payload {
            Some(to_lowercase(ts.as_str()))
        } else {
            None
        },
        decoded_payload_session_ids: Vec::new(),
    }
}

/// Whether a stored payload's decoded preview contains `needle` once lower-cased;
/// a payload that does not decode does not match.
#[verifier::rlimit(40)]
#[verifier::spinoff_prover]
pub fn payload_preview_matches(payload: &[u8], codec: &str, needle: &str) -> (r: bool)
    ensures
        r == match crate::storage::decoded_prefix_spec(payload@, codec@, 4096) {
            Ok(d) => crate::text::contains_run(lowercase(utf8_lossy(d)), needle@),
            Err(_) => false,
        },
{
    match decode_event_payload_prefix(payload, codec, PAYLOAD_PREVIEW_BYTES) {
        Ok(decoded) => {
            let preview = lossy_string(decoded.as_slice());
            let lower = to_lowercase(preview.as_str());
            let lc = chars_of(lower.as_str());
            let nc = chars_of(needle);
            crate::text::contains_chars(lc.as_slice(), nc.as_slice())
        },
        Err(_) => false,
    }
}

/// The first `n` characters of `s`.
pub open spec fn take_chars(s: Seq<char>, n: int) -> Seq<char> {
    if s.len() <= n {
        s
    } else {
        s.take(n)
    }
}

/// An event with its payload preview: the first 280 characters of the first
/// 4096 decoded bytes, or the reason the payload could not be decoded.
#[verifier::rlimit(40)]
#[verifier::spinoff_prover]
pub fn journal_event_with_payload(
    generation: i64,
    seq: i64,
    ts: Option<String>,
    codec: String,
    payload_size: u64,
    payload: Vec<u8>,
) -> (r: JournalEvent)
    ensures
        r.generation == generation,
        r.seq == seq,
        r.ts == ts,
        r.codec == codec,
        r.payload_size == payload_size,
        match crate::storage::decoded_prefix_spec(payload@, codec@, 4096) {
            Ok(d) => r.payload_preview@ == take_chars(utf8_lossy(d), 280) && r.payload_error is None,
            Err(failure) => r.payload_preview@.len() == 0 && match failure {
                Some(f) => r.payload_error matches Some(m) && m@
                    == crate::storage::codec_failure_text(f),
                None => r.payload_error is Some,
            },
        },
{
    match decode_event_payload_prefix(payload.as_slice(), codec.as_str(), PAYLOAD_PREVIEW_BYTES) {
        Ok(decoded) => {
            let text = lossy_string(decoded.as_slice());
            let tc = chars_of(text.as_str());
            let n = if tc.len() <= PAYLOAD_PREVIEW_CHARS {
                tc.len()
            } else {
                PAYLOAD_PREVIEW_CHARS
            };
            let preview = slice_chars(tc.as_slice(), 0, n);
            proof {
                assert(preview@ =~= take_chars(text@, 280));
            }
            JournalEvent {
                generation,
                seq,
                ts,
                codec,
                payload_size,
                payload_preview: string_from_chars(preview.as_slice()),
                payload_error: None,
            }
        },
        Err(error) => JournalEvent {
            generation,
            seq,
            ts,
            codec,
            payload_size,
            payload_preview: String::new(),
            payload_error: Some(error.to_message()),
        },
    }
}

// ---------------------------------------------------------------------------
// Rendering
// ---------------------------------------------------------------------------
/// The page's head, styles and title bar, up to the database path.
pub const PAGE_HEAD: &'static str = "<!doctype html><html lang=\"en\"><head><meta charset=\"utf-8\"><meta name=\"viewport\" content=\"width=device-width, initial-scale=1\"><title>Jottrace Journal</title><style>:root{color-scheme:light;--ink:#151715;--paper:#eef2ee;--line:#c9cec7;--muted:#5d665f;--green:#0e5c4f;--acid:#d8ff3d;--rust:#a93f22;font-family:\"Avenir Next\",\"Gill Sans\",Verdana,sans-serif;line-height:1.45}\
         *{box-sizing:border-box}body{margin:0;background:linear-gradient(90deg,rgba(21,23,21,.045) 1px,transparent 1px) 0 0/34px 34px,linear-gradient(0deg,rgba(21,23,21,.035) 1px,transparent 1px) 0 0/34px 34px,var(--paper);color:var(--ink)}\
         .topbar{display:grid;grid-template-columns:1fr minmax(260px,42vw);gap:24px;align-items:end;background:var(--ink);color:#f8faef;padding:24px 30px 22px;border-bottom:5px solid var(--acid)}\
         .kicker{margin:0 0 5px;font-size:.72rem;text-transform:uppercase;letter-spacing:.18em;color:var(--acid);font-weight:800}.topbar h1{margin:0;font-family:Georgia,\"Times New Roman\",serif;font-size:clamp(2rem,4vw,4.2rem);font-weight:900;line-height:.92}\
         .db{font-family:ui-monospace,SFMono-Regular,Menlo,monospace;font-size:.78rem;word-break:break-all;color:#dfe9df;text-align:right}.shell{display:grid;grid-template-columns:minmax(300px,390px) 1fr;min-height:calc(100vh - 118px)}\
         .rail{border-right:2px solid var(--line);background:rgba(251,251,247,.92);padding:18px;overflow:auto}.workspace{padding:24px 30px 40px;overflow:auto}\
         h2,h3{margin:0 0 12px;line-height:1.1}h2{font-size:1.02rem;text-transform:uppercase;letter-spacing:.12em}h3{font-size:1rem}.muted{color:var(--muted)}\
         .search{display:grid;grid-template-columns:1fr auto;gap:9px;margin:0 0 18px}.search input[type=search]{min-width:0;padding:10px 11px;border:2px solid var(--ink);border-radius:0;background:#fff;color:var(--ink);font:inherit}.search button{padding:10px 14px;border:2px solid var(--ink);border-radius:0;background:var(--acid);color:var(--ink);font-weight:900;text-transform:uppercase;letter-spacing:.06em}.payload-toggle{grid-column:1/3;display:flex;gap:8px;align-items:center;font-size:.86rem;color:var(--muted)}\
         a{color:var(--green);text-decoration:none}.session{display:block;border-top:1px solid var(--line);border-left:5px solid transparent;padding:12px 10px 12px 12px;color:var(--ink)}.session:hover{background:#fff;border-left-color:var(--rust)}.session.selected{background:var(--ink);border-left-color:var(--acid);color:#f8faef}.session strong{display:block;font-family:ui-monospace,SFMono-Regular,Menlo,monospace;font-size:.84rem;overflow-wrap:anywhere}.session .line{display:block;margin-top:3px;font-size:.82rem;color:inherit;opacity:.72}.pager{display:flex;flex-wrap:wrap;gap:8px;margin:14px 0 4px}.pager a,.inspect{display:inline-flex;align-items:center;min-height:32px;border:2px solid var(--ink);padding:5px 10px;background:#fff;color:var(--ink);font-weight:850;text-transform:uppercase;letter-spacing:.05em;font-size:.76rem}.pager a:hover,.inspect:hover{background:var(--acid)}\
         .summary{display:grid;grid-template-columns:repeat(4,minmax(0,1fr));gap:12px;margin:0 0 22px}.metric{border-top:5px solid var(--ink);background:rgba(255,255,255,.7);padding:10px 0}.metric b{display:block;font-size:1.35rem;line-height:1}.metric span{display:block;margin-top:2px;color:var(--muted);font-size:.78rem;text-transform:uppercase;letter-spacing:.08em}\
         dl{display:grid;grid-template-columns:max-content 1fr;gap:7px 14px;margin:0 0 24px;max-width:980px}dt{font-weight:900;text-transform:uppercase;letter-spacing:.08em;font-size:.72rem;color:var(--muted)}dd{margin:0;word-break:break-word}\
         .table-scroll{max-width:100%;overflow-x:auto}table{width:100%;min-width:640px;border-collapse:collapse;background:rgba(255,255,255,.78);border-top:3px solid var(--ink)}th,td{border-bottom:1px solid var(--line);padding:9px 8px;text-align:left;vertical-align:top}th{font-size:.72rem;text-transform:uppercase;letter-spacing:.12em;color:var(--muted);background:#e2e8e2}td{font-size:.9rem}.number{font-family:ui-monospace,SFMono-Regular,Menlo,monospace}.payload-panel{margin:14px 0 22px;border-left:6px solid var(--rust);background:#fff;padding:14px 16px;box-shadow:8px 8px 0 rgba(21,23,21,.08)}pre{white-space:pre-wrap;word-break:break-word;margin:8px 0 0;font-size:.84rem;font-family:ui-monospace,SFMono-Regular,Menlo,monospace}.error{color:#8a280d;font-weight:900}\
         @media(max-width:860px){.topbar{display:block;padding:20px}.db{text-align:left;margin-top:12px}.shell{display:block}.rail{border-right:0;border-bottom:2px solid var(--line)}.workspace{padding:20px}.summary{grid-template-columns:repeat(2,minmax(0,1fr))}table{font-size:.88rem}}</style></head><body><header class=\"topbar\"><div><p class=\"kicker\">local-only session browser</p><h1>Jottrace</h1></div><div class=\"db\">";

pub open spec fn escaped_opt(s: Option<String>) -> Seq<char> {
    match s {
        Some(t) => html_escaped(t@),
        None => Seq::empty(),
    }
}

/// `<dt>label</dt><dd>value</dd>`, both escaped.
pub open spec fn definition_spec(label: Seq<char>, value: Seq<char>) -> Seq<char> {
    "<dt>"@ + html_escaped(label) + "</dt><dd>"@ + html_escaped(value) + "</dd>"@
}

pub open spec fn optional_definition_spec(label: Seq<char>, value: Option<String>) -> Seq<char> {
    match value {
        Some(v) => definition_spec(label, v@),
        None => Seq::empty(),
    }
}

fn definition(out: &mut Vec<char>, label: &str, value: &str)
    ensures
        final(out)@ == old(out)@ + definition_spec(label@, value@),
{
    push_str(out, "<dt>");
    html_escape_into(out, label);
    push_str(out, "</dt><dd>");
    html_escape_into(out, value);
    push_str(out, "</dd>");
}

fn optional_definition(out: &mut Vec<char>, label: &str, value: &Option<String>)
    ensures
        final(out)@ == old(out)@ + optional_definition_spec(label@, *value),
{
    match value {
        Some(v) => definition(out, label, v.as_str()),
        None => {
            proof {
                assert(out@ =~= out@ + Seq::<char>::empty());
            }
        },
    }
}

fn push_decimal(out: &mut Vec<char>, n: u64)
    ensures
        final(out)@ == old(out)@ + decimal(n as nat),
{
    let d = decimal_chars(n);
    push_all(out, d.as_slice());
}

/// The key of a listed session.
pub open spec fn session_key(session: JournalSession) -> Option<(Option<Seq<char>>, Seq<char>)> {
    Some((Some(session.source@), session.source_session_id@))
}

/// A page link: `<a href="...">label</a>`, the link escaped.
pub open spec fn pager_link_spec(href: Seq<char>, label: Seq<char>) -> Seq<char> {
    "<a href=\""@ + html_escaped(href) + "\">"@ + label + "</a>"@
}

fn push_pager_link(out: &mut Vec<char>, href: &str, label: &str)
    ensures
        final(out)@ == old(out)@ + pager_link_spec(href@, label@),
{
    push_str(out, "<a href=\"");
    html_escape_into(out, href);
    push_str(out, "\">");
    push_str(out, label);
    push_str(out, "</a>");
}

/// A pager: nothing on a single page, else the previous and next links.
pub open spec fn pager_spec(
    page: PageInfo,
    aria_label: Seq<char>,
    previous: Option<Seq<char>>,
    previous_label: Seq<char>,
    next: Option<Seq<char>>,
    next_label: Seq<char>,
) -> Seq<char> {
    if !page.has_previous && !page.has_next {
        Seq::empty()
    } else {
        "<nav class=\"pager\" aria-label=\""@ + html_escaped(aria_label) + "\">"@ + match previous {
            Some(h) => pager_link_spec(h, previous_label),
            None => Seq::empty(),
        } + match next {
            Some(h) => pager_link_spec(h, next_label),
            None => Seq::empty(),
        } + "</nav>"@
    }
}

#[verifier::rlimit(40)]
#[verifier::spinoff_prover]
fn render_pager(
    out: &mut Vec<char>,
    page: PageInfo,
    aria_label: &str,
    previous_href: Option<String>,
    previous_label: &str,
    next_href: Option<String>,
    next_label: &str,
)
    ensures
        final(out)@ == old(out)@ + pager_spec(
            page,
            aria_label@,
            text_opt(previous_href),
            previous_label@,
            text_opt(next_href),
            next_label@,
        ),
{
    if !page.has_previous && !page.has_next {
        proof {
            assert(out@ =~= out@ + Seq::<char>::empty());
        }
        return;
    }
    let ghost start = out@;
    push_str(out, "<nav class=\"pager\" aria-label=\"");
    html_escape_into(out, aria_label);
    push_str(out, "\">");
    let ghost mid = out@;
    match &previous_href {
        Some(h) => push_pager_link(out, h.as_str(), previous_label),
        None => {},
    }
    let ghost mid2 = out@;
    match &next_href {
        Some(h) => push_pager_link(out, h.as_str(), next_label),
        None => {},
    }
    push_str(out, "</nav>");
    proof {
        assert(out@ =~= start + pager_spec(
            page,
            aria_label@,
            text_opt(previous_href),
            previous_label@,
            text_opt(next_href),
            next_label@,
        ));
    }
}

/// The page pager of the session list; it keeps the session selected only
/// when the request named one.
pub open spec fn session_pagination_spec(view: JournalView, query: JournalQuery) -> Seq<char> {
    let selected = if query.selected_source_session_id is Some && view.selected_session is Some {
        session_key(view.selected_session->0)
    } else {
        None
    };
    let page = view.session_page;
    pager_spec(
        page,
        "Session pages"@,
        if page.has_previous {
            Some(
                state_href_spec(
                    selected,
                    query@,
                    (if page.offset >= page.limit {
                        page.offset - page.limit
                    } else {
                        0
                    }) as usize,
                    0,
                    None,
                ),
            )
        } else {
            None
        },
        "Previous sessions"@,
        if page.has_next {
            Some(state_href_spec(selected, query@, (page.offset + page.limit) as usize, 0, None))
        } else {
            None
        },
        "Next sessions"@,
    )
}

fn key_of(session: &JournalSession) -> (k: SelectedSessionKey)
    ensures
        selected_view(Some(k)) == session_key(*session),
{
    SelectedSessionKey {
        source: Some(session.source.as_str()),
        source_session_id: session.source_session_id.as_str(),
    }
}

#[verifier::rlimit(40)]
#[verifier::spinoff_prover]
fn render_session_pagination(out: &mut Vec<char>, view: &JournalView, query: &JournalQuery)
    requires
        view.session_page.has_next ==> view.session_page.offset + view.session_page.limit
            <= usize::MAX,
    ensures
        final(out)@ == old(out)@ + session_pagination_spec(*view, *query),
{
    let selected: Option<SelectedSessionKey> = if query.selected_source_session_id.is_some() {
        match &view.selected_session {
            Some(s) => Some(key_of(s)),
            None => None,
        }
    } else {
        None
    };
    let page = view.session_page;
    let previous = if page.has_previous {
        Some(state_href(selected, query, page.offset.saturating_sub(page.limit), 0, None))
    } else {
        None
    };
    let next = if page.has_next {
        Some(state_href(selected, query, page.offset + page.limit, 0, None))
    } else {
        None
    };
    render_pager(out, page, "Session pages", previous, "Previous sessions", next, "Next sessions");
}

/// Whether a session is the one the view has selected.
pub open spec fn is_selected_session(session: JournalSession, view: JournalView) -> bool {
    match view.selected_session {
        Some(s) => session.source@ == s.source@ && session.source_session_id@
            == s.source_session_id@,
        None => false,
    }
}

/// The class attribute of a session link.
pub open spec fn session_class(selected: bool) -> Seq<char> {
    if selected {
        "session selected"@
    } else {
        "session"@
    }
}

/// The working-directory line of a session link, when the session has one.
pub open spec fn cwd_part(cwd: Option<String>) -> Seq<char> {
    match cwd {
        Some(c) => "<span class=\"line\">"@ + html_escaped(c@) + "</span>"@,
        None => Seq::empty(),
    }
}

/// One entry of the session list.
pub open spec fn session_link_spec(session: JournalSession, view: JournalView, query: JournalQuery) -> Seq<
    char,
> {
    "<a class=\""@ + session_class(is_selected_session(session, view)) + "\" href=\""@
        + html_escaped(state_href_spec(session_key(session), query@, query.session_offset, 0, None))
        + "\">"@ + "<strong>"@ + html_escaped(session.source_session_id@)
        + "</strong><span class=\"line\">"@ + html_escaped(session.source@) + " / "@ + decimal(
        session.event_count as nat,
    ) + " events</span>"@ + cwd_part(session.cwd) + "</a>"@
}

pub open spec fn session_list_spec(sessions: Seq<JournalSession>, view: JournalView, query: JournalQuery) -> Seq<
    char,
>
    decreases sessions.len(),
{
    if sessions.len() == 0 {
        Seq::empty()
    } else {
        session_list_spec(sessions.drop_last(), view, query) + session_link_spec(
            sessions.last(),
            view,
            query,
        )
    }
}

fn push_session_class(out: &mut Vec<char>, selected: bool)
    ensures
        final(out)@ == old(out)@ + session_class(selected),
{
    if selected {
        push_str(out, "session selected");
    } else {
        push_str(out, "session");
    }
}

fn push_cwd_part(out: &mut Vec<char>, cwd: &Option<String>)
    ensures
        final(out)@ == old(out)@ + cwd_part(*cwd),
{
    match cwd {
        Some(c) => {
            let ghost start = out@;
            push_str(out, "<span class=\"line\">");
            html_escape_into(out, c.as_str());
            push_str(out, "</span>");
            proof {
                assert(out@ =~= start + cwd_part(*cwd));
            }
        },
        None => {
            proof {
                assert(out@ =~= out@ + Seq::<char>::empty());
            }
        },
    }
}

fn session_is_selected(session: &JournalSession, view: &JournalView) -> (b: bool)
    ensures
        b == is_selected_session(*session, *view),
{
    match &view.selected_session {
        Some(s) => str_eq(session.source.as_str(), s.source.as_str()) && str_eq(
            session.source_session_id.as_str(),
            s.source_session_id.as_str(),
        ),
        None => false,
    }
}

#[verifier::rlimit(40)]
#[verifier::spinoff_prover]
fn render_session_link(out: &mut Vec<char>, session: &JournalSession, view: &JournalView, query: &JournalQuery)
    ensures
        final(out)@ == old(out)@ + session_link_spec(*session, *view, *query),
{
    let selected = session_is_selected(session, view);
    let href = state_href(Some(key_of(session)), query, query.session_offset, 0, None);
    let mut link: Vec<char> = Vec::new();
    push_str(&mut link, "<a class=\"");
    proof {
        assert(link@ =~= "<a class=\""@);
    }
    push_session_class(&mut link, selected);
    push_str(&mut link, "\" href=\"");
    html_escape_into(&mut link, href.as_str());
    push_str(&mut link, "\">");
    push_str(&mut link, "<strong>");
    html_escape_into(&mut link, session.source_session_id.as_str());
    push_str(&mut link, "</strong><span class=\"line\">");
    html_escape_into(&mut link, session.source.as_str());
    push_str(&mut link, " / ");
    push_decimal(&mut link, session.event_count);
    push_str(&mut link, " events</span>");
    push_cwd_part(&mut link, &session.cwd);
    push_str(&mut link, "</a>");
    push_all(out, link.as_slice());
}

/// One row of the event table.
pub open spec fn event_row_spec(event: JournalEvent, query: JournalQuery, session: JournalSession) -> Seq<
    char,
> {
    "<tr><td class=\"number\">"@ + signed_decimal(event.generation as int)
        + "</td><td class=\"number\">"@ + signed_decimal(event.seq as int) + "</td><td>"@
        + escaped_opt(event.ts) + "</td><td><a class=\"inspect\" href=\""@ + html_escaped(
        state_href_spec(
            session_key(session),
            query@,
            query.session_offset,
            query.event_offset,
            Some(EventKey { generation: event.generation, seq: event.seq }),
        ),
    ) + "\">Inspect "@ + decimal(event.payload_size as nat) + " bytes "@ + html_escaped(
        event.codec@,
    ) + "</a></td></tr>"@
}

pub open spec fn event_rows_spec(events: Seq<JournalEvent>, query: JournalQuery, session: JournalSession) -> Seq<
    char,
>
    decreases events.len(),
{
    if events.len() == 0 {
        Seq::empty()
    } else {
        event_rows_spec(events.drop_last(), query, session) + event_row_spec(
            events.last(),
            query,
            session,
        )
    }
}

/// The event table of the selected session.
pub open spec fn events_spec(events: Seq<JournalEvent>, query: JournalQuery, session: JournalSession) -> Seq<
    char,
> {
    if events.len() == 0 {
        "<p class=\"muted\">No events found for this session.</p>"@
    } else {
        "<div class=\"table-scroll\"><table><thead><tr><th>generation</th><th>seq</th><th>time</th><th>payload</th></tr></thead><tbody>"@
            + event_rows_spec(events, query, session) + "</tbody></table></div>"@
    }
}

#[verifier::rlimit(40)]
#[verifier::spinoff_prover]
fn render_event_row(out: &mut Vec<char>, event: &JournalEvent, query: &JournalQuery, session: &JournalSession)
    ensures
        final(out)@ == old(out)@ + event_row_spec(*event, *query, *session),
{
    let ghost start = out@;
    push_str(out, "<tr><td class=\"number\">");
    push_signed_decimal(out, event.generation);
    push_str(out, "</td><td class=\"number\">");
    push_signed_decimal(out, event.seq);
    push_str(out, "</td><td>");
    match &event.ts {
        Some(t) => html_escape_into(out, t.as_str()),
        None => {},
    }
    push_str(out, "</td><td><a class=\"inspect\" href=\"");
    let href = state_href(
        Some(key_of(session)),
        query,
        query.session_offset,
        query.event_offset,
        Some(EventKey { generation: event.generation, seq: event.seq }),
    );
    html_escape_into(out, href.as_str());
    push_str(out, "\">Inspect ");
    push_decimal(out, event.payload_size);
    push_str(out, " bytes ");
    html_escape_into(out, event.codec.as_str());
    push_str(out, "</a></td></tr>");
    proof {
        assert(out@ =~= start + event_row_spec(*event, *query, *session));
    }
}

#[verifier::rlimit(40)]
#[verifier::spinoff_prover]
fn render_events(out: &mut Vec<char>, events: &Vec<JournalEvent>, query: &JournalQuery, session: &JournalSession)
    ensures
        final(out)@ == old(out)@ + events_spec(events@, *query, *session),
{
    if events.len() == 0 {
        push_str(out, "<p class=\"muted\">No events found for this session.</p>");
        return;
    }
    let ghost start = out@;
    push_str(
        out,
        "<div class=\"table-scroll\"><table><thead><tr><th>generation</th><th>seq</th><th>time</th><th>payload</th></tr></thead><tbody>",
    );
    let ghost head = out@;
    let mut i: usize = 0;
    while i < events.len()
        invariant
            i <= events.len(),
            out@ == head + event_rows_spec(events@.take(i as int), *query, *session),
        decreases events.len() - i,
    {
        proof {
            assert(events@.take(i + 1).drop_last() =~= events@.take(i as int));
        }
        render_event_row(out, &events[i], query, session);
        i = i + 1;
    }
    proof {
        assert(events@.take(events.len() as int) =~= events@);
    }
    push_str(out, "</tbody></table></div>");
}

/// The export link of an event's full payload.
pub open spec fn export_href_spec(session: JournalSession, event: JournalEvent) -> Seq<char> {
    "/payload"@ + params_text(
        seq![
            ("source"@, session.source@),
            ("session"@, session.source_session_id@),
            ("event_generation"@, signed_decimal(event.generation as int)),
            ("event_seq"@, signed_decimal(event.seq as int)),
        ],
    )
}

fn event_payload_export_href(session: &JournalSession, event: &JournalEvent) -> (r: String)
    ensures
        r@ == export_href_spec(*session, *event),
{
    let mut href: Vec<char> = Vec::new();
    let mut ps: Ghost<Seq<(Seq<char>, Seq<char>)>> = Ghost(Seq::empty());
    ps = append_url_param(&mut href, ps, "source", session.source.as_str());
    ps = append_url_param(&mut href, ps, "session", session.source_session_id.as_str());
    let g = signed_string(event.generation);
    ps = append_url_param(&mut href, ps, "event_generation", g.as_str());
    let q = signed_string(event.seq);
    ps = append_url_param(&mut href, ps, "event_seq", q.as_str());
    let mut out: Vec<char> = Vec::new();
    push_str(&mut out, "/payload");
    push_all(&mut out, href.as_slice());
    proof {
        assert(ps@ =~= seq![
            ("source"@, session.source@),
            ("session"@, session.source_session_id@),
            ("event_generation"@, signed_decimal(event.generation as int)),
            ("event_seq"@, signed_decimal(event.seq as int)),
        ]);
    }
    string_from_chars(out.as_slice())
}

/// The preview panel of the expanded event.
pub open spec fn payload_panel_spec(event: JournalEvent, session: JournalSession) -> Seq<char> {
    "<div class=\"payload-panel\"><h3>Payload preview</h3><div class=\"muted\">generation "@
        + signed_decimal(event.generation as int) + " / seq "@ + signed_decimal(event.seq as int)
        + " / "@ + decimal(event.payload_size as nat) + " bytes "@ + html_escaped(event.codec@)
        + "</div>"@ + match event.payload_error {
        Some(e) => "<p class=\"error\">Payload unavailable</p><pre>"@ + html_escaped(e@)
            + "</pre></div>"@,
        None => "<pre>"@ + html_escaped(event.payload_preview@) + "</pre>"@
            + "<p><a class=\"inspect\" href=\""@ + html_escaped(export_href_spec(session, event))
            + "\">Export full decoded payload</a></p>"@ + "</div>"@,
    }
}

#[verifier::rlimit(40)]
#[verifier::spinoff_prover]
fn render_payload_panel(out: &mut Vec<char>, event: &JournalEvent, session: &JournalSession)
    ensures
        final(out)@ == old(out)@ + payload_panel_spec(*event, *session),
{
    let ghost start = out@;
    push_str(
        out,
        "<div class=\"payload-panel\"><h3>Payload preview</h3><div class=\"muted\">generation ",
    );
    push_signed_decimal(out, event.generation);
    push_str(out, " / seq ");
    push_signed_decimal(out, event.seq);
    push_str(out, " / ");
    push_decimal(out, event.payload_size);
    push_str(out, " bytes ");
    html_escape_into(out, event.codec.as_str());
    push_str(out, "</div>");
    let ghost mid = out@;
    match &event.payload_error {
        Some(error) => {
            push_str(out, "<p class=\"error\">Payload unavailable</p><pre>");
            html_escape_into(out, error.as_str());
            push_str(out, "</pre></div>");
            proof {
                assert(out@ =~= start + payload_panel_spec(*event, *session));
            }
            return;
        },
        None => {},
    }
    push_str(out, "<pre>");
    html_escape_into(out, event.payload_preview.as_str());
    push_str(out, "</pre>");
    push_str(out, "<p><a class=\"inspect\" href=\"");
    let href = event_payload_export_href(session, event);
    html_escape_into(out, href.as_str());
    push_str(out, "\">Export full decoded payload</a></p>");
    push_str(out, "</div>");
    proof {
        assert(out@ =~= start + payload_panel_spec(*event, *session));
    }
}

/// The pager of the selected session's events.
pub open spec fn event_pagination_spec(page: PageInfo, query: JournalQuery, session: JournalSession) -> Seq<
    char,
> {
    pager_spec(
        page,
        "Event pages"@,
        if page.has_previous {
            Some(
                state_href_spec(
                    session_key(session),
                    query@,
                    query.session_offset,
                    (if page.offset >= page.limit {
                        page.offset - page.limit
                    } else {
                        0
                    }) as usize,
                    None,
                ),
            )
        } else {
            None
        },
        "Previous events"@,
        if page.has_next {
            Some(
                state_href_spec(
                    session_key(session),
                    query@,
                    query.session_offset,
                    (page.offset + page.limit) as usize,
                    None,
                ),
            )
        } else {
            None
        },
        "Next events"@,
    )
}

#[verifier::rlimit(40)]
#[verifier::spinoff_prover]
fn render_event_pagination(out: &mut Vec<char>, page: PageInfo, query: &JournalQuery, session: &JournalSession)
    requires
        page.has_next ==> page.offset + page.limit <= usize::MAX,
    ensures
        final(out)@ == old(out)@ + event_pagination_spec(page, *query, *session),
{
    let previous = if page.has_previous {
        Some(
            state_href(
                Some(key_of(session)),
                query,
                query.session_offset,
                page.offset.saturating_sub(page.limit),
                None,
            ),
        )
    } else {
        None
    };
    let next = if page.has_next {
        Some(
            state_href(
                Some(key_of(session)),
                query,
                query.session_offset,
                page.offset + page.limit,
                None,
            ),
        )
    } else {
        None
    };
    render_pager(out, page, "Event pages", previous, "Previous events", next, "Next events");
}

/// One row of the ingest error table.
pub open spec fn ingest_error_row_spec(e: IngestErrorSummary) -> Seq<char> {
    "<tr><td>"@ + html_escaped(e.source@) + "</td><td>"@ + escaped_opt(e.source_session_id)
        + "</td><td>"@ + html_escaped(e.file_path@) + line_part(e.line_number)
        + "</td><td><span class=\"error\">"@ + html_escaped(e.error_kind@) + "</span><br>"@
        + html_escaped(e.message@) + "</td></tr>"@
}

pub open spec fn ingest_error_rows_spec(errors: Seq<IngestErrorSummary>) -> Seq<char>
    decreases errors.len(),
{
    if errors.len() == 0 {
        Seq::empty()
    } else {
        ingest_error_rows_spec(errors.drop_last()) + ingest_error_row_spec(errors.last())
    }
}

pub open spec fn ingest_errors_spec(errors: Seq<IngestErrorSummary>) -> Seq<char> {
    if errors.len() == 0 {
        "<p class=\"muted\">No unresolved ingest errors.</p>"@
    } else {
        "<div class=\"table-scroll\"><table><thead><tr><th>source</th><th>session</th><th>location</th><th>error</th></tr></thead><tbody>"@
            + ingest_error_rows_spec(errors) + "</tbody></table></div>"@
    }
}

fn push_escaped_opt(out: &mut Vec<char>, value: &Option<String>)
    ensures
        final(out)@ == old(out)@ + escaped_opt(*value),
{
    match value {
        Some(v) => html_escape_into(out, v.as_str()),
        None => {
            proof {
                assert(out@ =~= out@ + Seq::<char>::empty());
            }
        },
    }
}

pub open spec fn line_part(n: Option<i64>) -> Seq<char> {
    match n {
        Some(n) => "<br>line "@ + signed_decimal(n as int),
        None => Seq::empty(),
    }
}

fn push_line_part(out: &mut Vec<char>, n: Option<i64>)
    ensures
        final(out)@ == old(out)@ + line_part(n),
{
    match n {
        Some(n) => {
            let ghost start = out@;
            push_str(out, "<br>line ");
            push_signed_decimal(out, n);
            proof {
                assert(out@ =~= start + line_part(Some(n)));
            }
        },
        None => {
            proof {
                assert(out@ =~= out@ + Seq::<char>::empty());
            }
        },
    }
}

#[verifier::rlimit(40)]
#[verifier::spinoff_prover]
fn render_ingest_error_row(out: &mut Vec<char>, e: &IngestErrorSummary)
    ensures
        final(out)@ == old(out)@ + ingest_error_row_spec(*e),
{
    let mut row: Vec<char> = Vec::new();
    push_str(&mut row, "<tr><td>");
    proof {
        assert(row@ =~= "<tr><td>"@);
    }
    html_escape_into(&mut row, e.source.as_str());
    push_str(&mut row, "</td><td>");
    push_escaped_opt(&mut row, &e.source_session_id);
    push_str(&mut row, "</td><td>");
    html_escape_into(&mut row, e.file_path.as_str());
    push_line_part(&mut row, e.line_number);
    push_str(&mut row, "</td><td><span class=\"error\">");
    html_escape_into(&mut row, e.error_kind.as_str());
    push_str(&mut row, "</span><br>");
    html_escape_into(&mut row, e.message.as_str());
    push_str(&mut row, "</td></tr>");
    push_all(out, row.as_slice());
}

#[verifier::rlimit(40)]
#[verifier::spinoff_prover]
fn render_ingest_errors(out: &mut Vec<char>, errors: &Vec<IngestErrorSummary>)
    ensures
        final(out)@ == old(out)@ + ingest_errors_spec(errors@),
{
    if errors.len() == 0 {
        push_str(out, "<p class=\"muted\">No unresolved ingest errors.</p>");
        return;
    }
    push_str(
        out,
        "<div class=\"table-scroll\"><table><thead><tr><th>source</th><th>session</th><th>location</th><th>error</th></tr></thead><tbody>",
    );
    let ghost head = out@;
    let mut i: usize = 0;
    while i < errors.len()
        invariant
            i <= errors.len(),
            out@ == head + ingest_error_rows_spec(errors@.take(i as int)),
        decreases errors.len() - i,
    {
        proof {
            assert(errors@.take(i + 1).drop_last() =~= errors@.take(i as int));
        }
        render_ingest_error_row(out, &errors[i]);
        i = i + 1;
    }
    proof {
        assert(errors@.take(errors.len() as int) =~= errors@);
    }
    push_str(out, "</tbody></table></div>");
}

/// The workspace part for the selected session: counts, details, events, the
/// expanded payload and the event pager.
pub open spec fn selected_section_spec(view: JournalView, query: JournalQuery, session: JournalSession) -> Seq<
    char,
> {
    "<div class=\"summary\"><div class=\"metric\"><b>"@ + decimal(view.sessions.len() as nat)
        + "</b><span>visible sessions</span></div><div class=\"metric\"><b>"@ + decimal(
        session.event_count as nat,
    ) + "</b><span>session events</span></div><div class=\"metric\"><b>"@ + decimal(
        view.events.len() as nat,
    ) + "</b><span>visible events</span></div><div class=\"metric\"><b>"@ + decimal(
        view.unresolved_ingest_errors.len() as nat,
    ) + "</b><span>open errors</span></div></div>"@ + "<h2>Selected session</h2><dl>"@
        + definition_spec("source"@, session.source@) + definition_spec(
        "session id"@,
        session.source_session_id@,
    ) + optional_definition_spec("cwd"@, session.cwd) + optional_definition_spec(
        "path"@,
        session.file_path,
    ) + optional_definition_spec("parent"@, session.parent_source_session_id)
        + optional_definition_spec("started"@, session.started_at) + optional_definition_spec(
        "ended"@,
        session.ended_at,
    ) + definition_spec("event count"@, decimal(session.event_count as nat))
        + "</dl><h2>Events</h2>"@ + events_spec(view.events@, query, session) + expanded_part(
        view,
        session,
    ) + event_pager_part(view, query, session)
}

pub open spec fn expanded_part(view: JournalView, session: JournalSession) -> Seq<char> {
    match view.expanded_event {
        Some(e) => payload_panel_spec(e, session),
        None => Seq::empty(),
    }
}

pub open spec fn event_pager_part(view: JournalView, query: JournalQuery, session: JournalSession) -> Seq<char> {
    match view.event_page {
        Some(page) => event_pagination_spec(page, query, session),
        None => Seq::empty(),
    }
}

#[verifier::rlimit(40)]
#[verifier::spinoff_prover]
fn render_selected_section(
    out: &mut Vec<char>,
    view: &JournalView,
    query: &JournalQuery,
    session: &JournalSession,
)
    requires
        view.event_page matches Some(page) ==> (page.has_next ==> page.offset + page.limit
            <= usize::MAX),
    ensures
        final(out)@ == old(out)@ + selected_section_spec(*view, *query, *session),
{
    let mut part: Vec<char> = Vec::new();
    push_str(&mut part, "<div class=\"summary\"><div class=\"metric\"><b>");
    proof {
        assert(part@ =~= "<div class=\"summary\"><div class=\"metric\"><b>"@);
    }
    push_decimal(&mut part, view.sessions.len() as u64);
    push_str(&mut part, "</b><span>visible sessions</span></div><div class=\"metric\"><b>");
    push_decimal(&mut part, session.event_count);
    push_str(&mut part, "</b><span>session events</span></div><div class=\"metric\"><b>");
    push_decimal(&mut part, view.events.len() as u64);
    push_str(&mut part, "</b><span>visible events</span></div><div class=\"metric\"><b>");
    push_decimal(&mut part, view.unresolved_ingest_errors.len() as u64);
    push_str(&mut part, "</b><span>open errors</span></div></div>");
    push_str(&mut part, "<h2>Selected session</h2><dl>");
    definition(&mut part, "source", session.source.as_str());
    definition(&mut part, "session id", session.source_session_id.as_str());
    optional_definition(&mut part, "cwd", &session.cwd);
    optional_definition(&mut part, "path", &session.file_path);
    optional_definition(&mut part, "parent", &session.parent_source_session_id);
    optional_definition(&mut part, "started", &session.started_at);
    optional_definition(&mut part, "ended", &session.ended_at);
    let count = decimal_string(session.event_count);
    definition(&mut part, "event count", count.as_str());
    push_str(&mut part, "</dl><h2>Events</h2>");
    render_events(&mut part, &view.events, query, session);
    match &view.expanded_event {
        Some(event) => render_payload_panel(&mut part, event, session),
        None => {
            proof {
                assert(part@ =~= part@ + Seq::<char>::empty());
            }
        },
    }
    match view.event_page {
        Some(page) => render_event_pagination(&mut part, page, query, session),
        None => {
            proof {
                assert(part@ =~= part@ + Seq::<char>::empty());
            }
        },
    }
    push_all(out, part.as_slice());
}

/// The search form at the top of the session rail.
pub open spec fn search_form_spec(query: JournalQuery) -> Seq<char> {
    "<form class=\"search\" method=\"get\" action=\"/\"><input name=\"q\" type=\"search\" value=\""@
        + escaped_opt(query.search)
        + "\" placeholder=\"Search sessions\"><button type=\"submit\">Search</button><label class=\"payload-toggle\"><input name=\"payload\" type=\"checkbox\" value=\"1\""@
        + (if query.include_payload_search {
        " checked"@
    } else {
        ""@
    }) + "> include payload text</label></form>"@
}

/// The session rail: its heading, the session list and its pager.
pub open spec fn session_rail_spec(view: JournalView, query: JournalQuery) -> Seq<char> {
    "<h2>Sessions</h2>"@ + (if view.sessions.len() == 0 {
        "<p class=\"muted\">No sessions found.</p>"@
    } else {
        Seq::empty()
    }) + session_list_spec(view.sessions@, view, query) + session_pagination_spec(view, query)
}

/// The workspace: the selected session, if any, then the unresolved ingest errors.
pub open spec fn workspace_spec(view: JournalView, query: JournalQuery) -> Seq<char> {
    selected_part(view, query) + "<h2>Unresolved ingest errors</h2>"@ + ingest_errors_spec(
        view.unresolved_ingest_errors@,
    )
}

/// The selected session's section, or a note that none is selected.
pub open spec fn selected_part(view: JournalView, query: JournalQuery) -> Seq<char> {
    match view.selected_session {
        Some(session) => selected_section_spec(view, query, session),
        None => "<h2>No session selected</h2>"@,
    }
}

/// The journal browser's page for a view of the journal and the request's query.
pub open spec fn home_page_spec(view: JournalView, query: JournalQuery) -> Seq<char> {
    PAGE_HEAD@ + html_escaped(view.db_path@)
        + "</div></header><main class=\"shell\"><aside class=\"rail\">"@ + search_form_spec(
        query,
    ) + session_rail_spec(view, query) + "</aside><section class=\"workspace\">"@
        + workspace_spec(view, query) + "</section></main></body></html>"@
}

#[verifier::rlimit(40)]
#[verifier::spinoff_prover]
fn render_search_form(out: &mut Vec<char>, query: &JournalQuery)
    ensures
        final(out)@ == old(out)@ + search_form_spec(*query),
{
    let mut part: Vec<char> = Vec::new();
    push_str(
        &mut part,
        "<form class=\"search\" method=\"get\" action=\"/\"><input name=\"q\" type=\"search\" value=\"",
    );
    proof {
        assert(part@ =~= "<form class=\"search\" method=\"get\" action=\"/\"><input name=\"q\" type=\"search\" value=\""@);
    }
    push_escaped_opt(&mut part, &query.search);
    push_str(
        &mut part,
        "\" placeholder=\"Search sessions\"><button type=\"submit\">Search</button><label class=\"payload-toggle\"><input name=\"payload\" type=\"checkbox\" value=\"1\"",
    );
    if query.include_payload_search {
        push_str(&mut part, " checked");
    } else {
        push_str(&mut part, "");
    }
    push_str(&mut part, "> include payload text</label></form>");
    push_all(out, part.as_slice());
}

#[verifier::rlimit(40)]
#[verifier::spinoff_prover]
fn render_session_rail(out: &mut Vec<char>, view: &JournalView, query: &JournalQuery)
    requires
        view.session_page.has_next ==> view.session_page.offset + view.session_page.limit
            <= usize::MAX,
    ensures
        final(out)@ == old(out)@ + session_rail_spec(*view, *query),
{
    let mut part: Vec<char> = Vec::new();
    push_str(&mut part, "<h2>Sessions</h2>");
    proof {
        assert(part@ =~= "<h2>Sessions</h2>"@);
    }
    if view.sessions.len() == 0 {
        push_str(&mut part, "<p class=\"muted\">No sessions found.</p>");
    } else {
        proof {
            assert(part@ =~= part@ + Seq::<char>::empty());
        }
    }
    let ghost list_start = part@;
    let mut i: usize = 0;
    while i < view.sessions.len()
        invariant
            i <= view.sessions.len(),
            part@ == list_start + session_list_spec(view.sessions@.take(i as int), *view, *query),
        decreases view.sessions.len() - i,
    {
        proof {
            assert(view.sessions@.take(i + 1).drop_last() =~= view.sessions@.take(i as int));
        }
        render_session_link(&mut part, &view.sessions[i], view, query);
        i = i + 1;
    }
    proof {
        assert(view.sessions@.take(view.sessions.len() as int) =~= view.sessions@);
    }
    render_session_pagination(&mut part, view, query);
    push_all(out, part.as_slice());
}

#[verifier::rlimit(40)]
#[verifier::spinoff_prover]
fn render_workspace(out: &mut Vec<char>, view: &JournalView, query: &JournalQuery)
    requires
        view.event_page matches Some(page) ==> (page.has_next ==> page.offset + page.limit
            <= usize::MAX),
    ensures
        final(out)@ == old(out)@ + workspace_spec(*view, *query),
{
    let mut part: Vec<char> = Vec::new();
    match &view.selected_session {
        Some(session) => render_selected_section(&mut part, view, query, session),
        None => push_str(&mut part, "<h2>No session selected</h2>"),
    }
    push_str(&mut part, "<h2>Unresolved ingest errors</h2>");
    render_ingest_errors(&mut part, &view.unresolved_ingest_errors);
    proof {
        assert(part@ =~= workspace_spec(*view, *query));
    }
    push_all(out, part.as_slice());
}

/// Renders the journal browser's page (see `home_page_spec`).
#[verifier::rlimit(40)]
#[verifier::spinoff_prover]
pub fn render_home_page(view: &JournalView, query: &JournalQuery) -> (r: String)
    requires
        view.session_page.has_next ==> view.session_page.offset + view.session_page.limit
            <= usize::MAX,
        view.event_page matches Some(page) ==> (page.has_next ==> page.offset + page.limit
            <= usize::MAX),
    ensures
        r@ == home_page_spec(*view, *query),
{
    let mut html: Vec<char> = Vec::new();
    push_str(&mut html, PAGE_HEAD);
    html_escape_into(&mut html, view.db_path.as_str());
    push_str(&mut html, "</div></header><main class=\"shell\"><aside class=\"rail\">");
    render_search_form(&mut html, query);
    render_session_rail(&mut html, view, query);
    push_str(&mut html, "</aside><section class=\"workspace\">");
    render_workspace(&mut html, view, query);
    push_str(&mut html, "</section></main></body></html>");
    proof {
        assert(html@ =~= home_page_spec(*view, *query));
    }
    string_from_chars(html.as_slice())
}

/// The page shown when the journal cannot be read.
pub open spec fn error_page_spec(db_path: Seq<char>, error: JottraceError) -> Seq<char> {
    "<!doctype html><html lang=\"en\"><head><meta charset=\"utf-8\">"@
        + "<title>Jottrace Journal Error</title></head><body><h1>Jottrace Journal</h1>"@
        + "<p>Unable to read the local journal database.</p><dl><dt>db</dt><dd>"@ + html_escaped(
        db_path,
    ) + "</dd><dt>error</dt><dd>"@ + html_escaped(crate::error::error_text(error))
        + "</dd></dl></body></html>"@
}

#[verifier::rlimit(40)]
#[verifier::spinoff_prover]
pub fn render_error_page(db_path: &str, error: &JottraceError) -> (r: String)
    ensures
        r@ == error_page_spec(db_path@, *error),
{
    let mut html: Vec<char> = Vec::new();
    push_str(&mut html, "<!doctype html><html lang=\"en\"><head><meta charset=\"utf-8\">");
    push_str(
        &mut html,
        "<title>Jottrace Journal Error</title></head><body><h1>Jottrace Journal</h1>",
    );
    push_str(&mut html, "<p>Unable to read the local journal database.</p><dl><dt>db</dt><dd>");
    html_escape_into(&mut html, db_path);
    push_str(&mut html, "</dd><dt>error</dt><dd>");
    let message = error.to_message();
    html_escape_into(&mut html, message.as_str());
    push_str(&mut html, "</dd></dl></body></html>");
    string_from_chars(html.as_slice())
}

/// The HTTP response text: status line, headers, a blank line, the body.
pub open spec fn response_spec(status: Seq<char>, content_type: Seq<char>, body: Seq<char>, body_bytes: nat) -> Seq<char> {
    "HTTP/1.1 "@ + status + "\r\nContent-Type: "@ + content_type + "\r\nContent-Length: "@
        + decimal(body_bytes)
        + "\r\nCache-Control: no-store\r\nConnection: close\r\n\r\n"@ + body
}

pub fn http_response(status: &str, content_type: &str, body: &str) -> (r: String)
    ensures
        r@ == response_spec(status@, content_type@, body@, body.len() as nat),
{
    let mut out: Vec<char> = Vec::new();
    push_str(&mut out, "HTTP/1.1 ");
    push_str(&mut out, status);
    push_str(&mut out, "\r\nContent-Type: ");
    push_str(&mut out, content_type);
    push_str(&mut out, "\r\nContent-Length: ");
    push_decimal(&mut out, body.len() as u64);
    push_str(&mut out, "\r\nCache-Control: no-store\r\nConnection: close\r\n\r\n");
    push_str(&mut out, body);
    string_from_chars(out.as_slice())
}

/// What a request asks of the server.
#[derive(Debug, Clone, PartialEq, Eq)]
pub enum Route {
    /// No method and target could be read.
    BadRequest,
    /// Anything but `GET`.
    MethodNotAllowed,
    /// The journal page, for a query.
    Home(JournalQuery),
    /// A full decoded payload; the request target carries which.
    Payload(JournalQuery),
    NotFound,
}

pub open spec fn route_spec(request: Seq<char>) -> Option<(bool, Seq<char>)> {
    match request_line_spec(request) {
        None => None,
        Some((method, target)) => Some((method == "GET"@, target)),
    }
}

/// Routes a request: malformed ones are bad requests, other methods than
/// `GET` are not allowed, `/` is the page and `/payload` a payload.
#[verifier::rlimit(40)]
#[verifier::spinoff_prover]
pub fn route_request(request: &str) -> (r: Route)
    ensures
        match request_line_spec(request@) {
            None => r == Route::BadRequest,
            Some((method, target)) => if method != "GET"@ {
                r == Route::MethodNotAllowed
            } else if target_path_spec(target) == "/"@ {
                r matches Route::Home(q) && q@ == query_from_target_spec(target)
            } else if target_path_spec(target) == "/payload"@ {
                r matches Route::Payload(q) && q@ == query_from_target_spec(target)
            } else {
                r == Route::NotFound
            },
        },
{
    let (method, target) = match request_line(request) {
        Some(mt) => mt,
        None => {
            return Route::BadRequest;
        },
    };
    if !str_eq(method.as_str(), "GET") {
        return Route::MethodNotAllowed;
    }
    let path = target_path(target.as_str());
    if str_eq(path.as_str(), "/") {
        Route::Home(journal_query_from_target(target.as_str()))
    } else if str_eq(path.as_str(), "/payload") {
        Route::Payload(journal_query_from_target(target.as_str()))
    } else {
        Route::NotFound
    }
}

/// Where a payload request points: the session id and the event key, when
/// the target names both.
pub fn payload_request_key(query: &JournalQuery) -> (r: Option<(Option<String>, String, EventKey)>)
    ensures
        match r {
            Some((source, id, key)) => query.selected_source_session_id is Some
                && query.expanded_event == Some(key) && id@ == query.selected_source_session_id->0@
                && text_opt(source) == text_opt(query.selected_source),
            None => query.selected_source_session_id is None || query.expanded_event is None,
        },
{
    match (&query.selected_source_session_id, query.expanded_event) {
        (Some(id), Some(key)) => Some(
            (
                match &query.selected_source {
                    Some(s) => Some(s.clone()),
                    None => None,
                },
                id.clone(),
                key,
            ),
        ),
        _ => None,
    }
}
} // verus!
