//! The framing of language-server messages: a `Content-Length` header, a
//! blank line, then the message. Writing and reading the bytes is left to
//! the caller; this module builds a frame, reads header lines, and states
//! what reading a whole message from a stream gives.
use crate::text::{
    all_ascii_digits, chars_of, decimal, decimal_string, is_ascii_digit, is_white_space, law_parse_decimal,
    lemma_decimal_digits, parse_usize, parse_usize_spec, trim, trim_chars, trim_end, trim_start,
};
use vstd::prelude::*;
use vstd::utf8::{decode_utf8, encode_scalar, encode_utf8, is_ascii_chars, valid_utf8};

verus! {

/// Why a message could not be read.
#[derive(Clone, Copy, Debug, PartialEq, Eq, Structural)]
pub enum RlsError {
    /// The stream ended before the message did.
    StreamClosed,
    /// The `Content-Length` value is not a number.
    BadContentLength,
    /// A header line or the message is not UTF-8.
    BadUtf8,
}

/// Where reading a message stands after a header line.
#[derive(Clone, Copy, Debug, PartialEq, Eq, Structural)]
pub enum HeaderStep {
    /// More header lines follow; the content length read so far.
    More(Option<usize>),
    /// The headers have ended; the message has this many bytes.
    Body(usize),
}

/// The frame of `message`: its byte count in a `Content-Length` header, a
/// blank line, then the message.
pub open spec fn framed(message: Seq<char>) -> Seq<char> {
    "Content-Length: "@ + decimal((encode_utf8(message).len() as usize) as nat) + "\r\n\r\n"@ + message
}

/// The first `": "` in `s` at or after `i`.
pub open spec fn separator_from(s: Seq<char>, i: int) -> Option<int>
    decreases s.len() - i,
{
    if i < 0 || i + 2 > s.len() {
        None
    } else if s[i] == ':' && s[i + 1] == ' ' {
        Some(i)
    } else {
        separator_from(s, i + 1)
    }
}

/// A separator found from `j` is at or after `j`, with both its characters in `s`.
proof fn lemma_separator_bounds(s: Seq<char>, j: int)
    ensures
        separator_from(s, j) matches Some(i) ==> j <= i && i + 2 <= s.len(),
    decreases s.len() - j,
{
    if j >= 0 && j + 2 <= s.len() && !(s[j] == ':' && s[j + 1] == ' ') {
        lemma_separator_bounds(s, j + 1);
    }
}

/// `s` split at its first `": "`, as `str::split_once(": ")` splits it.
pub open spec fn split_once_spec(s: Seq<char>) -> Option<(Seq<char>, Seq<char>)> {
    match separator_from(s, 0) {
        Some(i) => Some((s.take(i), s.skip(i + 2))),
        None => None,
    }
}

/// What a header line read from the stream tells: nothing read means the
/// stream closed; a blank line ends the headers, with the length read so
/// far or zero; a `Content-Length` header gives the length, which must be a
/// number; any other line is passed over.
pub open spec fn header_step_spec(line: Seq<char>, content_length: Option<usize>) -> Result<HeaderStep, RlsError> {
    if line.len() == 0 {
        Err(RlsError::StreamClosed)
    } else if line == seq!['\r', '\n'] {
        Ok(
            HeaderStep::Body(
                match content_length {
                    Some(n) => n,
                    None => 0,
                },
            ),
        )
    } else {
        match split_once_spec(trim(line)) {
            Some((key, value)) => if key == "Content-Length"@ {
                match parse_usize_spec(value) {
                    Some(n) => Ok(HeaderStep::More(Some(n))),
                    None => Err(RlsError::BadContentLength),
                }
            } else {
                Ok(HeaderStep::More(content_length))
            },
            None => Ok(HeaderStep::More(content_length)),
        }
    }
}

/// Frames `message` for the language server.
pub fn frame_message(message: &str) -> (f: String)
    ensures
        f@ == framed(message@),
{
    let mut f = String::from_str("Content-Length: ");
    let n = message.len();
    let digits = decimal_string(n);
    f.append(digits.as_str());
    f.append("\r\n\r\n");
    f.append(message);
    f
}

/// The position of the first `": "` in `s`.
fn find_separator(s: &[char]) -> (r: Option<usize>)
    ensures
        match r {
            Some(i) => separator_from(s@, 0) == Some(i as int),
            None => separator_from(s@, 0) is None,
        },
{
    let n = s.len();
    let mut i: usize = 0;
    while i < n && n - i >= 2
        invariant
            n == s@.len(),
            i <= n,
            separator_from(s@, 0) == separator_from(s@, i as int),
        decreases n - i,
    {
        if s[i] == ':' && s[i + 1] == ' ' {
            return Some(i);
        }
        i = i + 1;
    }
    None
}

/// The characters of `s` from `from` to `to`.
fn chars_between(s: &[char], from: usize, to: usize) -> (r: Vec<char>)
    requires
        from <= to <= s@.len(),
    ensures
        r@ == s@.subrange(from as int, to as int),
{
    let mut r: Vec<char> = Vec::new();
    let mut k: usize = from;
    while k < to
        invariant
            from <= k <= to <= s@.len(),
            r@ == s@.subrange(from as int, k as int),
        decreases to - k,
    {
        r.push(s[k]);
        assert(r@ =~= s@.subrange(from as int, k + 1));
        k = k + 1;
    }
    r
}

/// Whether two character sequences are the same.
fn same_chars(a: &[char], b: &[char]) -> (r: bool)
    ensures
        r == (a@ == b@),
{
    if a.len() != b.len() {
        return false;
    }
    let mut i: usize = 0;
    while i < a.len()
        invariant
            a@.len() == b@.len(),
            i <= a@.len(),
            forall|k: int| 0 <= k < i ==> a@[k] == b@[k],
        decreases a@.len() - i,
    {
        if a[i] != b[i] {
            return false;
        }
        i = i + 1;
    }
    assert(a@ =~= b@);
    true
}

/// Reads one header line of a message: whether more lines follow, with the
/// content length so far, or the headers ended and the body's length.
pub fn header_step(line: &str, content_length: Option<usize>) -> (r: Result<HeaderStep, RlsError>)
    ensures
        r == header_step_spec(line@, content_length),
{
    let cs = chars_of(line);
    if cs.len() == 0 {
        return Err(RlsError::StreamClosed);
    }
    if cs.len() == 2 && cs[0] == '\r' && cs[1] == '\n' {
        assert(cs@ =~= seq!['\r', '\n']);
        return Ok(
            HeaderStep::Body(
                match content_length {
                    Some(n) => n,
                    None => 0,
                },
            ),
        );
    }
    assert(cs@ != seq!['\r', '\n']);
    let header = trim_chars(cs.as_slice());
    proof {
        lemma_separator_bounds(header@, 0);
    }
    match find_separator(header.as_slice()) {
        Some(i) => {
            assert(i + 2 <= header@.len());
            assert(header@.len() == header.len());
            let key = chars_between(header.as_slice(), 0, i);
            let value = chars_between(header.as_slice(), i + 2, header.len());
            let name = chars_of("Content-Length");
            proof {
                assert(key@ =~= header@.take(i as int));
                assert(value@ =~= header@.skip(i + 2));
            }
            if same_chars(key.as_slice(), name.as_slice()) {
                match parse_usize(value.as_slice()) {
                    Some(n) => Ok(HeaderStep::More(Some(n))),
                    None => Err(RlsError::BadContentLength),
                }
            } else {
                Ok(HeaderStep::More(content_length))
            }
        },
        None => Ok(HeaderStep::More(content_length)),
    }
}

/// The text that `bytes` encode in UTF-8 (`std::str::from_utf8`), where
/// they are UTF-8; the text's bytes are `bytes`.
#[verifier::external_body]
fn str_from_utf8(bytes: &[u8]) -> (r: Option<&str>)
    ensures
        r is Some <==> valid_utf8(bytes@),
        r matches Some(s) ==> encode_utf8(s@) == bytes@,
{
    std::str::from_utf8(bytes).ok()
}

/// The message whose bytes were read after the headers.
pub fn message_from_bytes(content: &[u8]) -> (r: Result<String, RlsError>)
    ensures
        valid_utf8(content@) ==> r is Ok && r->Ok_0@ == decode_utf8(content@),
        !valid_utf8(content@) ==> r == Err::<String, RlsError>(RlsError::BadUtf8),
{
    broadcast use vstd::utf8::encode_utf8_decode_utf8;

    match str_from_utf8(content) {
        Some(s) => Ok(s.to_owned()),
        None => Err(RlsError::BadUtf8),
    }
}

/// The header line that announces a message of `n` bytes.
pub open spec fn length_line(n: usize) -> Seq<char> {
    "Content-Length: "@ + decimal(n as nat) + "\r\n"@
}

/// With no `": "` in `s` from `j` to `k`, and one at `k`, the first
/// separator from `j` is at `k`.
proof fn lemma_separator_at(s: Seq<char>, j: int, k: int)
    requires
        0 <= j <= k,
        k + 2 <= s.len(),
        s[k] == ':',
        s[k + 1] == ' ',
        forall|i: int| j <= i < k ==> s[i] != ':',
    ensures
        separator_from(s, j) == Some(k),
    decreases k - j,
{
    if j < k {
        lemma_separator_at(s, j + 1, k);
    }
}

/// The header line of a frame reads back the length it announces, and the
/// blank line after it ends the headers with that length; the bytes of
/// that length that follow are valid UTF-8 and decode to the message: what
/// a writer frames, a reader reads back.
pub proof fn law_frame_read_back(message: Seq<char>, content_length: Option<usize>)
    ensures
        framed(message) == length_line((encode_utf8(message).len() as usize)) + seq!['\r', '\n']
            + message,
        header_step_spec(length_line((encode_utf8(message).len() as usize)), content_length) == Ok::<
            HeaderStep,
            RlsError,
        >(HeaderStep::More(Some((encode_utf8(message).len() as usize)))),
        header_step_spec(seq!['\r', '\n'], Some((encode_utf8(message).len() as usize))) == Ok::<
            HeaderStep,
            RlsError,
        >(HeaderStep::Body((encode_utf8(message).len() as usize))),
        valid_utf8(encode_utf8(message)),
        decode_utf8(encode_utf8(message)) == message,
{
    broadcast use vstd::utf8::encode_utf8_decode_utf8, vstd::utf8::encode_utf8_valid_utf8;

    let n = encode_utf8(message).len() as usize;
    reveal_strlit("Content-Length: ");
    reveal_strlit("\r\n\r\n");
    reveal_strlit("\r\n");
    assert(framed(message) =~= length_line(n) + seq!['\r', '\n'] + message);
    law_length_line_read_back(n, content_length);
}

/// The header line that announces `n` bytes reads back `n`.
pub proof fn law_length_line_read_back(n: usize, content_length: Option<usize>)
    ensures
        header_step_spec(length_line(n), content_length) == Ok::<HeaderStep, RlsError>(
            HeaderStep::More(Some(n)),
        ),
{
    reveal_strlit("Content-Length: ");
    reveal_strlit("Content-Length");
    reveal_strlit("\r\n");
    let d = decimal(n as nat);
    lemma_decimal_digits(n as nat);
    law_parse_decimal(n);
    let line = length_line(n);
    let head = "Content-Length: "@ + d;
    assert(line =~= head + seq!['\r', '\n']);
    assert(line.len() > 0);
    assert(line != seq!['\r', '\n']) by {
        assert(line[0] == 'C');
    }
    assert(trim_start(line) == line) by {
        assert(!is_white_space(line[0]));
    }
    assert(is_ascii_digit(d.last())) by {
        assert(d.last() == d[d.len() - 1]);
    }
    assert(trim_end(line) == head) by {
        let l1 = line.drop_last();
        assert(l1 =~= head + seq!['\r']);
        assert(l1.drop_last() =~= head);
        assert(line.last() == '\n');
        assert(is_white_space(line.last()));
        assert(trim_end(line) == trim_end(l1));
        assert(l1.last() == '\r');
        assert(is_white_space(l1.last()));
        assert(trim_end(l1) == trim_end(head));
        assert(head.last() == d.last());
        assert(!is_white_space(head.last()));
        assert(trim_end(head) == head);
    }
    assert(trim(line) == head);
    assert forall|i: int| 0 <= i < 14 implies head[i] != ':' by {}
    lemma_separator_at(head, 0, 14);
    assert(head.take(14) =~= "Content-Length"@);
    assert(head.skip(16) =~= d);
}

/// Where the line of `s` that starts at `i` ends: just after its first
/// `\n`, or at the end of `s` where none follows.
pub open spec fn line_end(s: Seq<u8>, i: nat) -> nat
    decreases s.len() - i,
{
    if i >= s.len() {
        s.len()
    } else if s[i as int] == 10u8 {
        i + 1
    } else {
        line_end(s, i + 1)
    }
}

/// Reading header lines from the stream `s`, one line at a time as
/// `read_line` takes them, each read by `header_step_spec`: the length of
/// the message and the stream after the headers, or why reading failed.
pub open spec fn read_headers(s: Seq<u8>, content_length: Option<usize>) -> Result<(usize, Seq<u8>), RlsError>
    decreases s.len(),
{
    let k = line_end(s, 0);
    let line = s.take(k as int);
    if !valid_utf8(line) {
        Err(RlsError::BadUtf8)
    } else {
        match header_step_spec(decode_utf8(line), content_length) {
            Err(e) => Err(e),
            Ok(HeaderStep::Body(n)) => Ok((n, s.skip(k as int))),
            Ok(HeaderStep::More(c)) => if 0 < k <= s.len() {
                read_headers(s.skip(k as int), c)
            } else {
                Err(RlsError::StreamClosed)
            },
        }
    }
}

/// Reading one message from the stream `s`: its headers, then as many
/// bytes as they announce, decoded as UTF-8; the message and the stream
/// after it, or why reading failed.
pub open spec fn read_message_spec(s: Seq<u8>) -> Result<(Seq<char>, Seq<u8>), RlsError> {
    match read_headers(s, None) {
        Err(e) => Err(e),
        Ok((n, rest)) => if rest.len() < n {
            Err(RlsError::StreamClosed)
        } else if !valid_utf8(rest.take(n as int)) {
            Err(RlsError::BadUtf8)
        } else {
            Ok((decode_utf8(rest.take(n as int)), rest.skip(n as int)))
        },
    }
}

/// The UTF-8 bytes of two texts one after the other are the bytes of the
/// first, then those of the second.
proof fn lemma_encode_concat(a: Seq<char>, b: Seq<char>)
    ensures
        encode_utf8(a + b) == encode_utf8(a) + encode_utf8(b),
    decreases a.len(),
{
    if a.len() > 0 {
        assert((a + b).drop_first() =~= a.drop_first() + b);
        lemma_encode_concat(a.drop_first(), b);
        assert((a + b)[0] == a[0]);
        assert(encode_utf8(a + b) =~= encode_scalar(a[0] as u32) + (encode_utf8(a.drop_first()) + encode_utf8(b)));
    } else {
        assert(a + b =~= b);
        assert(encode_utf8(a) =~= Seq::<u8>::empty());
    }
}

/// With no `\n` in `s` from `i` to `k`, and one at `k`, the line from `i`
/// ends just after `k`.
proof fn lemma_line_end_at(s: Seq<u8>, i: nat, k: nat)
    requires
        i <= k < s.len(),
        s[k as int] == 10u8,
        forall|j: int| i <= j < k ==> s[j] != 10u8,
    ensures
        line_end(s, i) == k + 1,
    decreases k - i,
{
    if i < k {
        lemma_line_end_at(s, i + 1, k);
    }
}

/// A line read from the front of `line + rest`, where `line` is ASCII and
/// has its only `\n` at its end, is `line`.
proof fn lemma_read_ascii_line(line: Seq<char>, rest: Seq<u8>)
    requires
        is_ascii_chars(line),
        line.len() > 0,
        line.last() == '\n',
        forall|j: int| 0 <= j < line.len() - 1 ==> line[j] != '\n',
    ensures
        encode_utf8(line).len() == line.len(),
        line_end(encode_utf8(line) + rest, 0) == line.len(),
        (encode_utf8(line) + rest).take(line.len() as int) == encode_utf8(line),
        (encode_utf8(line) + rest).skip(line.len() as int) == rest,
        valid_utf8(encode_utf8(line)),
        decode_utf8(encode_utf8(line)) == line,
{
    broadcast use vstd::utf8::is_ascii_chars_encode_utf8, vstd::utf8::encode_utf8_decode_utf8,
        vstd::utf8::encode_utf8_valid_utf8;

    let e = encode_utf8(line);
    let s = e + rest;
    let k = (line.len() - 1) as nat;
    assert(s[k as int] == e[k as int]);
    assert(line[k as int] == '\n');
    assert(s[k as int] == 10u8);
    assert forall|j: int| 0 <= j < k implies s[j] != 10u8 by {
        assert(s[j] == e[j]);
        assert(line[j] as u8 == e[j]);
        assert(line[j] != '\n');
        assert(('\0' <= line[j] <= '\u{7f}'));
    }
    lemma_line_end_at(s, 0, k);
    assert(s.take(line.len() as int) =~= e);
    assert(s.skip(line.len() as int) =~= rest);
}

/// The decimal digits of a number are ASCII characters other than `\n`.
proof fn lemma_decimal_ascii(n: nat)
    ensures
        is_ascii_chars(decimal(n)),
        forall|i: int| 0 <= i < decimal(n).len() ==> #[trigger] decimal(n)[i] != '\n',
    decreases n,
{
    let d = decimal(n);
    if n < 10 {
        assert(d[0] == (n + 48) as char);
        assert(((n + 48) as char) as int == n + 48);
    } else {
        lemma_decimal_ascii(n / 10);
        let c = ((n % 10) + 48) as char;
        assert(d =~= decimal(n / 10).push(c));
        assert(c as int == (n % 10) + 48);
        assert forall|i: int| 0 <= i < d.len() implies '\0' <= #[trigger] d[i] <= '\u{7f}' && d[i] != '\n' by {
            if i < d.len() - 1 {
                assert(d[i] == decimal(n / 10)[i]);
            } else {
                assert(d[i] == c);
            }
        }
    }
}

/// What a writer frames, a reader reads back: reading a message from a
/// stream that starts with the bytes of the frame of `message` gives
/// `message`, and leaves the stream just after it.
pub proof fn law_read_message_back(message: Seq<char>, rest: Seq<u8>)
    requires
        encode_utf8(message).len() <= usize::MAX,
    ensures
        read_message_spec(encode_utf8(framed(message)) + rest) == Ok::<(Seq<char>, Seq<u8>), RlsError>(
            (message, rest),
        ),
{
    broadcast use vstd::utf8::encode_utf8_decode_utf8, vstd::utf8::encode_utf8_valid_utf8;

    let n = encode_utf8(message).len() as usize;
    let head = length_line(n);
    let blank = seq!['\r', '\n'];
    law_frame_read_back(message, None);
    law_length_line_read_back(n, None);
    lemma_encode_concat(head + blank, message);
    lemma_encode_concat(head, blank);
    let body = encode_utf8(message) + rest;
    let after_head = encode_utf8(blank) + body;
    let s = encode_utf8(framed(message)) + rest;
    assert(s =~= encode_utf8(head) + after_head);
    reveal_strlit("Content-Length: ");
    reveal_strlit("\r\n");
    lemma_decimal_digits(n as nat);
    let d = decimal(n as nat);
    assert(head =~= "Content-Length: "@ + d + "\r\n"@);
    let label = "Content-Length: "@;
    assert(is_ascii_chars(label)) by {
        assert forall|i: int| 0 <= i < label.len() implies '\0' <= #[trigger] label[i] <= '\u{7f}' by {
            assert(label =~= seq!['C', 'o', 'n', 't', 'e', 'n', 't', '-', 'L', 'e', 'n', 'g', 't', 'h', ':', ' ']);
        }
    }
    lemma_decimal_ascii(n as nat);
    assert(is_ascii_chars(head)) by {
        assert forall|i: int| 0 <= i < head.len() implies '\0' <= #[trigger] head[i] <= '\u{7f}' by {
            if i < 16 {
                assert(head[i] == label[i]);
            } else if i < 16 + d.len() {
                assert(head[i] == d[i - 16]);
            } else {
                assert(head[i] == '\r' || head[i] == '\n');
            }
        }
    }
    assert forall|j: int| 0 <= j < head.len() - 1 implies head[j] != '\n' by {
        if j < 16 {
            assert(head[j] == label[j]);
        } else if j < 16 + d.len() {
            assert(head[j] == d[j - 16]);
        } else {
            assert(head[j] == '\r');
        }
    }
    lemma_read_ascii_line(head, after_head);
    assert(is_ascii_chars(blank));
    lemma_read_ascii_line(blank, body);
    assert(read_headers(after_head, Some(n)) == Ok::<(usize, Seq<u8>), RlsError>((n, body)));
    assert(read_headers(s, None) == read_headers(after_head, Some(n)));
    assert(body.take(n as int) =~= encode_utf8(message));
    assert(body.skip(n as int) =~= rest);
}

} // verus!
