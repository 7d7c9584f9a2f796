//! XML escaping, a line-oriented XML writer, and the UTF-16 LE / UTF-8 byte
//! sinks that carry `.anx` output.
//!
//! `.anx` is XML text encoded as UTF-16 LE with a BOM. Text and attribute
//! values escape `& < > "` and drop the C0 control characters XML 1.0 forbids
//! (everything below U+0020 except TAB, LF and CR).
use vstd::prelude::*;

use crate::text::{chars_of, push_char};
use vstd::utf8::encode_utf8;

verus! {

// ── Escaping ────────────────────────────────────────────────────────────────

/// What one input character becomes in escaped output.
pub open spec fn escape_char(c: char) -> Seq<char> {
    if c == '&' {
        seq!['&', 'a', 'm', 'p', ';']
    } else if c == '<' {
        seq!['&', 'l', 't', ';']
    } else if c == '>' {
        seq!['&', 'g', 't', ';']
    } else if c == '"' {
        seq!['&', 'q', 'u', 'o', 't', ';']
    } else if c == '\t' || c == '\n' || c == '\r' {
        seq![c]
    } else if (c as u32) < 0x20 {
        seq![]
    } else {
        seq![c]
    }
}

/// The escaped form of a character sequence: each character replaced by
/// [`escape_char`], in order.
pub open spec fn escape_seq(s: Seq<char>) -> Seq<char>
    decreases s.len(),
{
    if s.len() == 0 {
        seq![]
    } else {
        escape_seq(s.drop_last()) + escape_char(s.last())
    }
}

/// A character that may stand verbatim in escaped output: no markup
/// delimiter, no quote, no forbidden control.
pub open spec fn xml_safe(c: char) -> bool {
    &&& c != '<'
    &&& c != '>'
    &&& c != '"'
    &&& ((c as u32) >= 0x20 || c == '\t' || c == '\n' || c == '\r')
}

/// A character that [`escape_seq`] keeps unchanged.
pub open spec fn plain_char(c: char) -> bool {
    xml_safe(c) && c != '&'
}

fn push_lit(out: &mut String, lit: &[char])
    ensures
        final(out)@ == old(out)@ + lit@,
{
    let n = lit.len();
    for i in 0..n
        invariant
            n == lit@.len(),
            out@ == old(out)@ + lit@.take(i as int),
    {
        push_char(out, lit[i]);
        assert(lit@.take(i + 1) =~= lit@.take(i as int).push(lit@[i as int]));
    }
    assert(lit@.take(n as int) =~= lit@);
}

fn push_escaped_char(out: &mut String, c: char)
    ensures
        final(out)@ == old(out)@ + escape_char(c),
{
    if c == '&' {
        push_lit(out, &['&', 'a', 'm', 'p', ';']);
    } else if c == '<' {
        push_lit(out, &['&', 'l', 't', ';']);
    } else if c == '>' {
        push_lit(out, &['&', 'g', 't', ';']);
    } else if c == '"' {
        push_lit(out, &['&', 'q', 'u', 'o', 't', ';']);
    } else if c == '\t' || c == '\n' || c == '\r' {
        push_char(out, c);
    } else if (c as u32) < 0x20 {
        assert(old(out)@ + escape_char(c) =~= old(out)@);
    } else {
        push_char(out, c);
    }
}

/// Append the escaped form of `s` to `out`.
pub fn push_escaped(out: &mut String, s: &str)
    ensures
        final(out)@ == old(out)@ + escape_seq(s@),
{
    let v = chars_of(s);
    let n = v.len();
    for i in 0..n
        invariant
            n == v@.len(),
            v@ == s@,
            out@ == old(out)@ + escape_seq(v@.take(i as int)),
    {
        push_escaped_char(out, v[i]);
        assert(v@.take(i + 1).drop_last() =~= v@.take(i as int));
    }
    assert(v@.take(n as int) =~= v@);
}

/// Escape a string for use as XML text or a double-quoted attribute value,
/// dropping the control characters XML 1.0 forbids.
pub fn escape(s: &str) -> (r: String)
    ensures
        r@ == escape_seq(s@),
{
    let mut out = String::new();
    push_escaped(&mut out, s);
    assert(out@ =~= escape_seq(s@));
    out
}

/// Escaped output never holds a markup delimiter, a quote, or a forbidden
/// control character.
pub proof fn escape_output_is_xml_safe(s: Seq<char>)
    ensures
        forall|k: int| 0 <= k < escape_seq(s).len() ==> xml_safe(#[trigger] escape_seq(s)[k]),
    decreases s.len(),
{
    if s.len() > 0 {
        escape_output_is_xml_safe(s.drop_last());
        let a = escape_seq(s.drop_last());
        let b = escape_char(s.last());
        assert forall|k: int| 0 <= k < escape_seq(s).len() implies xml_safe(
            #[trigger] escape_seq(s)[k],
        ) by {
            if k >= a.len() {
                assert(escape_seq(s)[k] == b[k - a.len()]);
            } else {
                assert(escape_seq(s)[k] == a[k]);
            }
        }
    }
}

/// Text made only of plain characters passes through escaping unchanged.
pub proof fn escape_keeps_plain_text(s: Seq<char>)
    requires
        forall|k: int| 0 <= k < s.len() ==> plain_char(#[trigger] s[k]),
    ensures
        escape_seq(s) == s,
    decreases s.len(),
{
    if s.len() > 0 {
        escape_keeps_plain_text(s.drop_last());
        assert(plain_char(s[s.len() - 1]));
        assert(s.drop_last().push(s.last()) =~= s);
    }
}

/// Escaping distributes over concatenation.
pub proof fn escape_concat(a: Seq<char>, b: Seq<char>)
    ensures
        escape_seq(a + b) == escape_seq(a) + escape_seq(b),
    decreases b.len(),
{
    if b.len() == 0 {
        assert(a + b =~= a);
    } else {
        escape_concat(a, b.drop_last());
        assert((a + b).drop_last() =~= a + b.drop_last());
        assert((a + b).last() == b.last());
    }
}

/// A C0 control character that escaping drops (everything below U+0020
/// but TAB, LF and CR).
pub open spec fn dropped_control(c: char) -> bool {
    (c as u32) < 0x20 && c != '\t' && c != '\n' && c != '\r'
}

/// The characters of `s` without the controls escaping drops, in order.
pub open spec fn without_dropped(s: Seq<char>) -> Seq<char>
    decreases s.len(),
{
    if s.len() == 0 {
        seq![]
    } else {
        (if dropped_control(s[0]) { seq![] } else { seq![s[0]] }) + without_dropped(s.skip(1))
    }
}

/// One left-to-right pass that decodes `&amp;`, `&lt;`, `&gt;` and `&quot;`
/// and keeps every other character.
pub open spec fn unescape_seq(t: Seq<char>) -> Seq<char>
    decreases t.len(),
{
    if t.len() == 0 {
        seq![]
    } else if t.len() >= 5 && t.take(5) == seq!['&', 'a', 'm', 'p', ';'] {
        seq!['&'] + unescape_seq(t.skip(5))
    } else if t.len() >= 4 && t.take(4) == seq!['&', 'l', 't', ';'] {
        seq!['<'] + unescape_seq(t.skip(4))
    } else if t.len() >= 4 && t.take(4) == seq!['&', 'g', 't', ';'] {
        seq!['>'] + unescape_seq(t.skip(4))
    } else if t.len() >= 6 && t.take(6) == seq!['&', 'q', 'u', 'o', 't', ';'] {
        seq!['"'] + unescape_seq(t.skip(6))
    } else {
        seq![t[0]] + unescape_seq(t.skip(1))
    }
}

proof fn unescape_after_char(c: char, r: Seq<char>)
    ensures
        unescape_seq(escape_char(c) + r) == (if dropped_control(c) { seq![] } else { seq![c] })
            + unescape_seq(r),
{
    let e = escape_char(c);
    let t = e + r;
    assert(t.skip(e.len() as int) =~= r);
    if c == '&' {
        assert(t.take(5) =~= seq!['&', 'a', 'm', 'p', ';']);
    } else if c == '<' {
        assert(t.take(5) != seq!['&', 'a', 'm', 'p', ';'] || t.len() < 5) by {
            if t.len() >= 5 {
                assert(t.take(5)[1] == 'l');
            }
        }
        assert(t.take(4) =~= seq!['&', 'l', 't', ';']);
    } else if c == '>' {
        assert(t.take(5) != seq!['&', 'a', 'm', 'p', ';'] || t.len() < 5) by {
            if t.len() >= 5 {
                assert(t.take(5)[1] == 'g');
            }
        }
        assert(t.take(4) != seq!['&', 'l', 't', ';']) by {
            assert(t.take(4)[1] == 'g');
        }
        assert(t.take(4) =~= seq!['&', 'g', 't', ';']);
    } else if c == '"' {
        assert(t.take(5) != seq!['&', 'a', 'm', 'p', ';']) by {
            assert(t.take(5)[1] == 'q');
        }
        assert(t.take(4) != seq!['&', 'l', 't', ';']) by {
            assert(t.take(4)[1] == 'q');
        }
        assert(t.take(4) != seq!['&', 'g', 't', ';']) by {
            assert(t.take(4)[1] == 'q');
        }
        assert(t.take(6) =~= seq!['&', 'q', 'u', 'o', 't', ';']);
    } else if dropped_control(c) {
        assert(e =~= seq![]);
        assert(t =~= r);
    } else {
        assert(e =~= seq![c]);
        assert(t[0] == c);
        if t.len() >= 5 {
            assert(t.take(5)[0] == c);
            assert(t.take(5) != seq!['&', 'a', 'm', 'p', ';']);
        }
        if t.len() >= 4 {
            assert(t.take(4)[0] == c);
            assert(t.take(4) != seq!['&', 'l', 't', ';']);
            assert(t.take(4) != seq!['&', 'g', 't', ';']);
        }
        if t.len() >= 6 {
            assert(t.take(6)[0] == c);
            assert(t.take(6) != seq!['&', 'q', 'u', 'o', 't', ';']);
        }
    }
}

/// Escaping can be undone: decoding the four entities in escaped text gives
/// back the input text, less the control characters escaping drops.
pub proof fn unescape_undoes_escape(s: Seq<char>)
    ensures
        unescape_seq(escape_seq(s)) == without_dropped(s),
    decreases s.len(),
{
    if s.len() > 0 {
        let head = seq![s[0]];
        let tail = s.skip(1);
        assert(head + tail =~= s);
        escape_concat(head, tail);
        assert(head.drop_last() =~= Seq::<char>::empty());
        assert(escape_seq(head.drop_last()) =~= Seq::<char>::empty());
        assert(head.last() == s[0]);
        assert(escape_seq(head) =~= escape_char(s[0]));
        unescape_after_char(s[0], escape_seq(tail));
        unescape_undoes_escape(tail);
    }
}

// ── Sinks ───────────────────────────────────────────────────────────────────

/// A destination for XML text fragments. `text` is everything handed to the
/// sink so far; `valid` is the sink's own consistency condition, which every
/// write keeps.
pub trait XmlSink {
    spec fn text(&self) -> Seq<char>;

    spec fn valid(&self) -> bool;

    fn write_str(&mut self, s: &str)
        requires
            old(self).valid(),
        ensures
            final(self).valid(),
            final(self).text() == old(self).text() + s@,
    ;
}

impl XmlSink for String {
    open spec fn text(&self) -> Seq<char> {
        self@
    }

    open spec fn valid(&self) -> bool {
        true
    }

    fn write_str(&mut self, s: &str) {
        self.append(s);
    }
}

/// A byte destination that a streaming sink flushes into. `bytes` is what it
/// has accepted so far.
pub trait ByteWrite {
    spec fn bytes(&self) -> Seq<u8>;

    /// The destination takes every write offered to it (an in-memory buffer
    /// does; a file or socket may refuse one).
    spec fn accepts(&self) -> bool;

    fn write_all(&mut self, buf: &[u8]) -> (r: Result<(), WriteFailure>)
        ensures
            r is Ok ==> final(self).bytes() == old(self).bytes() + buf@,
            old(self).accepts() ==> r is Ok && final(self).accepts(),
    ;

    fn flush(&mut self) -> (r: Result<(), WriteFailure>)
        ensures
            r is Ok ==> final(self).bytes() == old(self).bytes(),
            old(self).accepts() ==> r is Ok && final(self).accepts(),
    ;
}

/// A write that the byte destination refused, with its description.
#[derive(Debug, Clone, PartialEq, Eq)]
pub struct WriteFailure {
    pub message: String,
}

impl ByteWrite for Vec<u8> {
    open spec fn bytes(&self) -> Seq<u8> {
        self@
    }

    open spec fn accepts(&self) -> bool {
        true
    }

    fn write_all(&mut self, buf: &[u8]) -> (r: Result<(), WriteFailure>) {
        self.extend_from_slice(buf);
        Ok(())
    }

    fn flush(&mut self) -> (r: Result<(), WriteFailure>) {
        Ok(())
    }
}

impl<'a> ByteWrite for &'a mut Vec<u8> {
    open spec fn bytes(&self) -> Seq<u8> {
        (**self)@
    }

    open spec fn accepts(&self) -> bool {
        true
    }

    fn write_all(&mut self, buf: &[u8]) -> (r: Result<(), WriteFailure>) {
        (**self).extend_from_slice(buf);
        Ok(())
    }

    fn flush(&mut self) -> (r: Result<(), WriteFailure>) {
        Ok(())
    }
}


// ── UTF-16 LE encoding ──────────────────────────────────────────────────────

/// Little-endian bytes of one UTF-16 code unit.
pub open spec fn le_bytes(u: int) -> Seq<u8> {
    seq![(u % 256) as u8, (u / 256) as u8]
}

/// UTF-16 LE bytes of one character: one code unit below U+10000, a surrogate
/// pair above.
pub open spec fn char_utf16le(c: char) -> Seq<u8> {
    let u = c as u32 as int;
    if u < 0x10000 {
        le_bytes(u)
    } else {
        let v = u - 0x10000;
        le_bytes(0xD800 + v / 0x400) + le_bytes(0xDC00 + v % 0x400)
    }
}

/// UTF-16 LE bytes of a character sequence.
pub open spec fn utf16le(s: Seq<char>) -> Seq<u8>
    decreases s.len(),
{
    if s.len() == 0 {
        seq![]
    } else {
        utf16le(s.drop_last()) + char_utf16le(s.last())
    }
}

/// The UTF-16 byte-order mark, little-endian.
pub open spec fn bom() -> Seq<u8> {
    seq![0xFFu8, 0xFEu8]
}

proof fn utf16le_push(s: Seq<char>, c: char)
    ensures
        utf16le(s.push(c)) == utf16le(s) + char_utf16le(c),
{
    assert(s.push(c).drop_last() =~= s);
}

pub proof fn utf16le_concat(a: Seq<char>, b: Seq<char>)
    ensures
        utf16le(a + b) == utf16le(a) + utf16le(b),
    decreases b.len(),
{
    if b.len() == 0 {
        assert(a + b =~= a);
        assert(utf16le(a) + utf16le(b) =~= utf16le(a));
    } else {
        utf16le_concat(a, b.drop_last());
        assert((a + b).drop_last() =~= a + b.drop_last());
        assert(utf16le(a + b) =~= utf16le(a) + utf16le(b));
    }
}

/// The code unit stored little-endian in the first two bytes of `b`.
pub open spec fn first_unit(b: Seq<u8>) -> int {
    b[0] as int + 256 * (b[1] as int)
}

/// Read UTF-16 LE bytes back as code points: a unit outside the surrogate
/// range is itself, a high surrogate followed by a low surrogate is one
/// supplementary code point; an odd byte, a lone or reversed surrogate makes
/// the input malformed (`None`).
pub open spec fn utf16le_decode(b: Seq<u8>) -> Option<Seq<int>>
    decreases b.len(),
{
    if b.len() == 0 {
        Some(seq![])
    } else if b.len() < 2 {
        None
    } else {
        let u = first_unit(b);
        if 0xD800 <= u < 0xDC00 {
            if b.len() < 4 {
                None
            } else {
                let w = first_unit(b.subrange(2, b.len() as int));
                if 0xDC00 <= w < 0xE000 {
                    match utf16le_decode(b.subrange(4, b.len() as int)) {
                        Some(rest) => Some(seq![0x10000 + (u - 0xD800) * 0x400 + (w - 0xDC00)] + rest),
                        None => None,
                    }
                } else {
                    None
                }
            }
        } else if 0xDC00 <= u < 0xE000 {
            None
        } else {
            match utf16le_decode(b.subrange(2, b.len() as int)) {
                Some(rest) => Some(seq![u] + rest),
                None => None,
            }
        }
    }
}

/// The code points of a character sequence.
pub open spec fn code_points(s: Seq<char>) -> Seq<int> {
    s.map_values(|c: char| c as u32 as int)
}

proof fn lemma_decode_char(c: char, rest: Seq<u8>)
    ensures
        utf16le_decode(char_utf16le(c) + rest) == match utf16le_decode(rest) {
            Some(d) => Some(seq![c as u32 as int] + d),
            None => None,
        },
{
    let u = c as u32 as int;
    let b = char_utf16le(c) + rest;
    assert(u <= 0xD7FF || 0xE000 <= u <= 0x10FFFF);
    if u < 0x10000 {
        assert(b.subrange(2, b.len() as int) =~= rest);
        assert(first_unit(b) == u);
    } else {
        let v = u - 0x10000;
        let hi = 0xD800 + v / 0x400;
        let lo = 0xDC00 + v % 0x400;
        assert(b.subrange(4, b.len() as int) =~= rest);
        assert(first_unit(b) == hi);
        assert(first_unit(b.subrange(2, b.len() as int)) == lo);
        assert(0x10000 + (hi - 0xD800) * 0x400 + (lo - 0xDC00) == u);
    }
}

/// Reading the UTF-16 LE encoding back gives the characters encoded, for
/// every character sequence, including characters above U+FFFF.
pub proof fn utf16le_decodes_back(s: Seq<char>)
    ensures
        utf16le_decode(utf16le(s)) == Some(code_points(s)),
    decreases s.len(),
{
    if s.len() == 0 {
        assert(code_points(s) =~= Seq::<int>::empty());
    } else {
        let t = s.drop_first();
        utf16le_decodes_back(t);
        utf16le_concat(seq![s[0]], t);
        assert(seq![s[0]] + t =~= s);
        utf16le_push(Seq::<char>::empty(), s[0]);
        assert(Seq::<char>::empty().push(s[0]) =~= seq![s[0]]);
        assert(utf16le(Seq::<char>::empty()) =~= Seq::<u8>::empty());
        assert(utf16le(seq![s[0]]) =~= char_utf16le(s[0]));
        lemma_decode_char(s[0], utf16le(t));
        assert(code_points(s) =~= seq![s[0] as u32 as int] + code_points(t));
    }
}

fn push_unit_le(buf: &mut Vec<u8>, u: u32)
    requires
        u < 0x10000,
    ensures
        final(buf)@ == old(buf)@ + le_bytes(u as int),
{
    buf.push((u % 256) as u8);
    buf.push((u / 256) as u8);
    assert(final(buf)@ =~= old(buf)@ + le_bytes(u as int));
}

fn push_char_utf16le(buf: &mut Vec<u8>, c: char)
    ensures
        final(buf)@ == old(buf)@ + char_utf16le(c),
{
    let u = c as u32;
    if u < 0x10000 {
        push_unit_le(buf, u);
    } else {
        let v = u - 0x10000;
        push_unit_le(buf, 0xD800 + v / 0x400);
        push_unit_le(buf, 0xDC00 + v % 0x400);
        assert(final(buf)@ =~= old(buf)@ + char_utf16le(c));
    }
}

/// Append the UTF-16 LE encoding of `s` to `buf`.
pub fn push_utf16le(buf: &mut Vec<u8>, s: &str)
    ensures
        final(buf)@ == old(buf)@ + utf16le(s@),
{
    let v = chars_of(s);
    let n = v.len();
    for i in 0..n
        invariant
            n == v@.len(),
            v@ == s@,
            buf@ == old(buf)@ + utf16le(v@.take(i as int)),
    {
        push_char_utf16le(buf, v[i]);
        proof {
            utf16le_push(v@.take(i as int), v@[i as int]);
            assert(v@.take(i + 1) =~= v@.take(i as int).push(v@[i as int]));
        }
    }
    assert(v@.take(n as int) =~= v@);
}

/// Encode an XML string to UTF-16 LE bytes with a leading BOM (`FF FE`), the
/// on-disk form of an `.anx` file.
pub fn to_utf16le_with_bom(s: &str) -> (r: Vec<u8>)
    ensures
        r@ == bom() + utf16le(s@),
        r@.subrange(0, 2) == bom(),
        utf16le_decode(r@.subrange(2, r@.len() as int)) == Some(code_points(s@)),
{
    let mut bytes: Vec<u8> = Vec::new();
    bytes.push(0xFF);
    bytes.push(0xFE);
    assert(bytes@ =~= bom());
    push_utf16le(&mut bytes, s);
    proof {
        utf16le_decodes_back(s@);
        assert(bytes@.subrange(2, bytes@.len() as int) =~= utf16le(s@));
        assert(bytes@.subrange(0, 2) =~= bom());
    }
    bytes
}

/// Flushing threshold of the streaming sinks (64 KiB).
pub const STREAM_FLUSH_BYTES: usize = 65536;

/// A streaming sink that encodes fragments to UTF-16 LE (BOM first) and
/// flushes them to an inner byte writer whenever 64 KiB have gathered. A
/// refused write is kept and reported by [`Utf16Sink::finish`]; text offered
/// after it is dropped.
pub struct Utf16Sink<W: ByteWrite> {
    inner: W,
    buf: Vec<u8>,
    err: Option<WriteFailure>,
    /// What the inner writer held before the sink was made.
    base: Ghost<Seq<u8>>,
    /// Everything offered to the sink.
    offered: Ghost<Seq<char>>,
}

impl<W: ByteWrite> Utf16Sink<W> {
    /// What the inner writer held before the sink was made.
    pub closed spec fn base(&self) -> Seq<u8> {
        self.base@
    }

    /// The first write the inner writer refused, if any.
    pub closed spec fn captured(&self) -> Option<WriteFailure> {
        self.err
    }

    /// The inner writer takes every write offered to it.
    pub closed spec fn accepting(&self) -> bool {
        self.inner.accepts()
    }

    /// No write has been refused so far.
    pub closed spec fn healthy(&self) -> bool {
        self.err is None
    }

    /// Create a sink, writing the UTF-16 BOM to `inner` first.
    pub fn new(inner: W) -> (r: Result<Self, WriteFailure>)
        ensures
            r matches Ok(s) ==> {
                &&& s.valid()
                &&& s.healthy()
                &&& s.text() == Seq::<char>::empty()
                &&& s.base() == inner.bytes()
                &&& inner.accepts() ==> s.accepting()
            },
            inner.accepts() ==> r is Ok,
    {
        let mut inner = inner;
        let ghost base = inner.bytes();
        let mut b: Vec<u8> = Vec::new();
        b.push(0xFF);
        b.push(0xFE);
        match inner.write_all(b.as_slice()) {
            Ok(()) => {},
            Err(e) => {
                return Err(e);
            },
        }
        assert(b@ =~= bom());
        let s = Utf16Sink {
            inner,
            buf: Vec::new(),
            err: None,
            base: Ghost(base),
            offered: Ghost(Seq::empty()),
        };
        assert(s.inner.bytes() + s.buf@ =~= base + bom() + utf16le(Seq::<char>::empty()));
        Ok(s)
    }

    /// Flush what is buffered and hand back the inner writer, or report the
    /// first refused write. On success the inner writer holds, after what it
    /// held before, the BOM and the UTF-16 LE encoding of all offered text.
    pub fn finish(self) -> (r: Result<W, WriteFailure>)
        requires
            self.valid(),
        ensures
            r matches Ok(w) ==> self.healthy() && w.bytes() == self.base() + bom() + utf16le(
                self.text(),
            ),
            !self.healthy() ==> r is Err,
            self.captured() matches Some(e) ==> r == Err::<W, WriteFailure>(e),
            self.healthy() && self.accepting() ==> r is Ok,
    {
        let Utf16Sink { inner, buf, err, base, offered } = self;
        let mut inner = inner;
        if let Some(e) = err {
            return Err(e);
        }
        match inner.write_all(buf.as_slice()) {
            Ok(()) => {},
            Err(e) => {
                return Err(e);
            },
        }
        match inner.flush() {
            Ok(()) => {},
            Err(e) => {
                return Err(e);
            },
        }
        Ok(inner)
    }
}

impl<W: ByteWrite> XmlSink for Utf16Sink<W> {
    closed spec fn text(&self) -> Seq<char> {
        self.offered@
    }

    closed spec fn valid(&self) -> bool {
        self.err is None ==> self.inner.bytes() + self.buf@ == self.base@ + bom() + utf16le(
            self.offered@,
        )
    }

    fn write_str(&mut self, s: &str)
        ensures
            old(self).healthy() && old(self).accepting() ==> final(self).healthy() && final(self).accepting(),
            final(self).base() == old(self).base(),
    {
        proof {
            utf16le_concat(self.offered@, s@);
        }
        let ghost prev_off = self.offered@;
        self.offered = Ghost(self.offered@ + s@);
        if self.err.is_some() {
            return;
        }
        let ghost ib = self.inner.bytes();
        let ghost ob = self.buf@;
        push_utf16le(&mut self.buf, s);
        assert(self.inner.bytes() == ib);
        assert(self.buf@ == ob + utf16le(s@));
        let ghost pre = self.base@ + bom();
        assert(utf16le(self.offered@) == utf16le(prev_off) + utf16le(s@));
        assert(ib + ob == pre + utf16le(prev_off));
        assert((ib + ob) + utf16le(s@) =~= ib + (ob + utf16le(s@)));
        assert(pre + (utf16le(prev_off) + utf16le(s@)) =~= (pre + utf16le(prev_off)) + utf16le(s@));
        assert(self.inner.bytes() + self.buf@ == self.base@ + bom() + utf16le(self.offered@));
        if self.buf.len() >= STREAM_FLUSH_BYTES {
            let ghost before = self.inner.bytes() + self.buf@;
            match self.inner.write_all(self.buf.as_slice()) {
                Ok(()) => {},
                Err(e) => {
                    self.err = Some(e);
                },
            }
            self.buf.clear();
            if self.err.is_none() {
                assert(self.inner.bytes() + self.buf@ =~= before);
            }
        }
    }
}

proof fn encode_utf8_concat(a: Seq<char>, b: Seq<char>)
    ensures
        encode_utf8(a + b) == encode_utf8(a) + encode_utf8(b),
    decreases a.len(),
{
    if a.len() == 0 {
        assert(a + b =~= b);
        assert(encode_utf8(a) + encode_utf8(b) =~= encode_utf8(b));
    } else {
        encode_utf8_concat(a.drop_first(), b);
        assert((a + b).drop_first() =~= a.drop_first() + b);
        assert(encode_utf8(a + b) =~= encode_utf8(a) + encode_utf8(b));
    }
}

/// A streaming sink that writes fragments as UTF-8 bytes to an inner byte
/// writer whenever 64 KiB have gathered — the XML-text analogue of
/// [`Utf16Sink`]. A refused write is kept and reported by
/// [`Utf8Sink::finish`]; text offered after it is dropped.
pub struct Utf8Sink<W: ByteWrite> {
    inner: W,
    buf: Vec<u8>,
    err: Option<WriteFailure>,
    base: Ghost<Seq<u8>>,
    offered: Ghost<Seq<char>>,
}

impl<W: ByteWrite> Utf8Sink<W> {
    /// What the inner writer held before the sink was made.
    pub closed spec fn base(&self) -> Seq<u8> {
        self.base@
    }

    /// The first write the inner writer refused, if any.
    pub closed spec fn captured(&self) -> Option<WriteFailure> {
        self.err
    }

    /// The inner writer takes every write offered to it.
    pub closed spec fn accepting(&self) -> bool {
        self.inner.accepts()
    }

    /// No write has been refused so far.
    pub closed spec fn healthy(&self) -> bool {
        self.err is None
    }

    /// Create a sink over `inner`.
    pub fn new(inner: W) -> (s: Self)
        ensures
            s.valid(),
            s.healthy(),
            s.text() == Seq::<char>::empty(),
            s.base() == inner.bytes(),
            s.accepting() == inner.accepts(),
    {
        let s = Utf8Sink {
            inner,
            buf: Vec::new(),
            err: None,
            base: Ghost(inner.bytes()),
            offered: Ghost(Seq::empty()),
        };
        assert(s.inner.bytes() + s.buf@ =~= s.base@ + encode_utf8(Seq::<char>::empty()));
        s
    }

    /// Flush what is buffered and hand back the inner writer, or report the
    /// first refused write. On success the inner writer holds, after what it
    /// held before, the UTF-8 encoding of all offered text.
    pub fn finish(self) -> (r: Result<W, WriteFailure>)
        requires
            self.valid(),
        ensures
            r matches Ok(w) ==> self.healthy() && w.bytes() == self.base() + encode_utf8(
                self.text(),
            ),
            !self.healthy() ==> r is Err,
            self.captured() matches Some(e) ==> r == Err::<W, WriteFailure>(e),
            self.healthy() && self.accepting() ==> r is Ok,
    {
        let Utf8Sink { inner, buf, err, base, offered } = self;
        let mut inner = inner;
        if let Some(e) = err {
            return Err(e);
        }
        match inner.write_all(buf.as_slice()) {
            Ok(()) => {},
            Err(e) => {
                return Err(e);
            },
        }
        match inner.flush() {
            Ok(()) => {},
            Err(e) => {
                return Err(e);
            },
        }
        Ok(inner)
    }
}

impl<W: ByteWrite> XmlSink for Utf8Sink<W> {
    closed spec fn text(&self) -> Seq<char> {
        self.offered@
    }

    closed spec fn valid(&self) -> bool {
        self.err is None ==> self.inner.bytes() + self.buf@ == self.base@ + encode_utf8(
            self.offered@,
        )
    }

    fn write_str(&mut self, s: &str)
        ensures
            old(self).healthy() && old(self).accepting() ==> final(self).healthy() && final(self).accepting(),
            final(self).base() == old(self).base(),
    {
        proof {
            encode_utf8_concat(self.offered@, s@);
        }
        let ghost prev_off = self.offered@;
        self.offered = Ghost(self.offered@ + s@);
        if self.err.is_some() {
            return;
        }
        let ghost ib = self.inner.bytes();
        let ghost ob = self.buf@;
        let bytes = s.as_bytes();
        assert(bytes@ == encode_utf8(s@));
        self.buf.extend_from_slice(bytes);
        assert(self.inner.bytes() == ib);
        assert(self.buf@ == ob + encode_utf8(s@));
        let ghost pre = self.base@;
        assert(ib + ob == pre + encode_utf8(prev_off));
        assert((ib + ob) + encode_utf8(s@) =~= ib + (ob + encode_utf8(s@)));
        assert(pre + (encode_utf8(prev_off) + encode_utf8(s@)) =~= (pre + encode_utf8(prev_off)) + encode_utf8(s@));
        assert(self.inner.bytes() + self.buf@ == self.base@ + encode_utf8(self.offered@));
        if self.buf.len() >= STREAM_FLUSH_BYTES {
            let ghost before = self.inner.bytes() + self.buf@;
            match self.inner.write_all(self.buf.as_slice()) {
                Ok(()) => {},
                Err(e) => {
                    self.err = Some(e);
                },
            }
            self.buf.clear();
            if self.err.is_none() {
                assert(self.inner.bytes() + self.buf@ =~= before);
            }
        }
    }
}

// ── Writer ──────────────────────────────────────────────────────────────────

/// An attribute pair for [`Writer`]; the value is escaped on write.
pub type Attr<'a> = (&'a str, String);

/// ` name="escaped value"` for one attribute.
pub open spec fn attr_text(name: Seq<char>, value: Seq<char>) -> Seq<char> {
    " "@ + name + "=\""@ + escape_seq(value) + "\""@
}

/// The attributes of a tag, in the order given.
pub open spec fn attrs_text(attrs: Seq<(&str, String)>) -> Seq<char>
    decreases attrs.len(),
{
    if attrs.len() == 0 {
        seq![]
    } else {
        attrs_text(attrs.drop_last()) + attr_text(attrs.last().0@, attrs.last().1@)
    }
}

/// Two spaces per nesting level in pretty mode; nothing in compact mode.
pub open spec fn indent_text(compact: bool, depth: nat) -> Seq<char>
    decreases depth,
{
    if compact || depth == 0 {
        seq![]
    } else {
        indent_text(compact, (depth - 1) as nat) + "  "@
    }
}

/// `<tag a="..">` or `<tag a=".."/>`, with its newline.
pub open spec fn tag_text(tag: Seq<char>, attrs: Seq<(&str, String)>, self_closing: bool) -> Seq<
    char,
> {
    "<"@ + tag + attrs_text(attrs) + if self_closing {
        "/>\n"@
    } else {
        ">\n"@
    }
}

/// `<tag>escaped text</tag>` with its newline.
pub open spec fn text_element_text(tag: Seq<char>, text: Seq<char>) -> Seq<char> {
    "<"@ + tag + ">"@ + escape_seq(text) + "</"@ + tag + ">\n"@
}

/// `</tag>` with its newline.
pub open spec fn close_text(tag: Seq<char>) -> Seq<char> {
    "</"@ + tag + ">\n"@
}

/// `<?xml version='1.0' encoding='{encoding}'?>` with its newline.
pub open spec fn declaration_text(encoding: Seq<char>) -> Seq<char> {
    "<?xml version='1.0' encoding='"@ + encoding + "'?>\n"@
}

/// `<!-- {text} -->` with its newline.
pub open spec fn comment_text(text: Seq<char>) -> Seq<char> {
    "<!-- "@ + text + " -->\n"@
}

fn push_indent(frag: &mut String, compact: bool, depth: usize)
    ensures
        final(frag)@ == old(frag)@ + indent_text(compact, depth as nat),
{
    if compact {
        return;
    }
    let mut i: usize = 0;
    while i < depth
        invariant
            !compact,
            i <= depth,
            frag@ == old(frag)@ + indent_text(compact, i as nat),
        decreases depth - i,
    {
        frag.append("  ");
        assert(indent_text(compact, (i + 1) as nat) == indent_text(compact, i as nat) + "  "@);
        i = i + 1;
    }
}

fn push_attrs(frag: &mut String, attrs: &[Attr])
    ensures
        final(frag)@ == old(frag)@ + attrs_text(attrs@),
{
    let n = attrs.len();
    for i in 0..n
        invariant
            n == attrs@.len(),
            frag@ == old(frag)@ + attrs_text(attrs@.take(i as int)),
    {
        let (name, value) = &attrs[i];
        frag.append(" ");
        frag.append(name);
        frag.append("=\"");
        push_escaped(frag, value.as_str());
        frag.append("\"");
        assert(attrs@.take(i + 1).drop_last() =~= attrs@.take(i as int));
        assert(frag@ =~= old(frag)@ + attrs_text(attrs@.take(i + 1)));
    }
    assert(attrs@.take(n as int) =~= attrs@);
}

/// A minimal XML writer over any [`XmlSink`].
///
/// In compact mode (the `.anx` default) each tag stands on its own line with
/// no indentation; in pretty mode every nesting level is indented by two
/// spaces. Attributes are written in the order given.
pub struct Writer<'s, S: XmlSink> {
    pub out: &'s mut S,
    pub compact: bool,
    pub depth: usize,
}

impl<'s, S: XmlSink> Writer<'s, S> {
    /// Text written through this writer's sink so far.
    pub open spec fn text(&self) -> Seq<char> {
        self.out.text()
    }

    /// Create a writer over `out` at nesting depth 0; `compact` drops
    /// indentation.
    pub fn new(out: &'s mut S, compact: bool) -> (w: Self)
        ensures
            *w.out == *old(out),
            *final(out) == *final(w.out),
            w.compact == compact,
            w.depth == 0,
    {
        Writer { out, compact, depth: 0 }
    }

    fn emit(&mut self, frag: &String)
        requires
            old(self).out.valid(),
        ensures
            final(self).out.valid(),
            final(self).text() == old(self).text() + frag@,
            final(self).compact == old(self).compact,
            final(self).depth == old(self).depth,
            *final(final(self).out) == *final(old(self).out),
    {
        self.out.write_str(frag.as_str());
    }

    /// `<?xml version='1.0' encoding='{encoding}'?>`.
    pub fn declaration(&mut self, encoding: &str)
        requires
            old(self).out.valid(),
        ensures
            final(self).out.valid(),
            final(self).text() == old(self).text() + declaration_text(encoding@),
            final(self).compact == old(self).compact,
            final(self).depth == old(self).depth,
            *final(final(self).out) == *final(old(self).out),
    {
        let mut frag = String::new();
        frag.append("<?xml version='1.0' encoding='");
        frag.append(encoding);
        frag.append("'?>\n");
        self.emit(&frag);
    }

    /// A provenance comment `<!-- text -->`.
    pub fn comment(&mut self, text: &str)
        requires
            old(self).out.valid(),
        ensures
            final(self).out.valid(),
            final(self).text() == old(self).text() + comment_text(text@),
            final(self).compact == old(self).compact,
            final(self).depth == old(self).depth,
            *final(final(self).out) == *final(old(self).out),
    {
        let mut frag = String::new();
        frag.append("<!-- ");
        frag.append(text);
        frag.append(" -->\n");
        self.emit(&frag);
    }

    /// Open tag `<Tag a="..">` on its own line; one level deeper after it.
    pub fn open(&mut self, tag: &str, attrs: &[Attr])
        requires
            old(self).out.valid(),
            old(self).depth < usize::MAX,
        ensures
            final(self).out.valid(),
            final(self).text() == old(self).text() + indent_text(
                old(self).compact,
                old(self).depth as nat,
            ) + tag_text(tag@, attrs@, false),
            final(self).compact == old(self).compact,
            final(self).depth == old(self).depth + 1,
            *final(final(self).out) == *final(old(self).out),
    {
        self.write_tag(tag, attrs, false);
        self.depth = self.depth + 1;
    }

    /// Self-closing tag `<Tag a=".."/>` on its own line.
    pub fn empty(&mut self, tag: &str, attrs: &[Attr])
        requires
            old(self).out.valid(),
        ensures
            final(self).out.valid(),
            final(self).text() == old(self).text() + indent_text(
                old(self).compact,
                old(self).depth as nat,
            ) + tag_text(tag@, attrs@, true),
            final(self).compact == old(self).compact,
            final(self).depth == old(self).depth,
            *final(final(self).out) == *final(old(self).out),
    {
        self.write_tag(tag, attrs, true);
    }

    /// A text-content element `<Tag>escaped text</Tag>` on one line.
    pub fn text_element(&mut self, tag: &str, text: &str)
        requires
            old(self).out.valid(),
        ensures
            final(self).out.valid(),
            final(self).text() == old(self).text() + indent_text(
                old(self).compact,
                old(self).depth as nat,
            ) + text_element_text(tag@, text@),
            final(self).compact == old(self).compact,
            final(self).depth == old(self).depth,
            *final(final(self).out) == *final(old(self).out),
    {
        let mut frag = String::new();
        push_indent(&mut frag, self.compact, self.depth);
        frag.append("<");
        frag.append(tag);
        frag.append(">");
        push_escaped(&mut frag, text);
        frag.append("</");
        frag.append(tag);
        frag.append(">\n");
        assert(frag@ =~= indent_text(self.compact, self.depth as nat) + text_element_text(
            tag@,
            text@,
        ));
        let ghost before = self.text();
        self.emit(&frag);
        assert(self.text() =~= before + indent_text(self.compact, self.depth as nat)
            + text_element_text(tag@, text@));
    }

    /// Close tag `</Tag>` on its own line, one level shallower (never below 0).
    pub fn close(&mut self, tag: &str)
        requires
            old(self).out.valid(),
        ensures
            final(self).out.valid(),
            final(self).depth == if old(self).depth > 0 {
                old(self).depth - 1
            } else {
                0
            },
            final(self).text() == old(self).text() + indent_text(
                old(self).compact,
                final(self).depth as nat,
            ) + close_text(tag@),
            final(self).compact == old(self).compact,
            *final(final(self).out) == *final(old(self).out),
    {
        if self.depth > 0 {
            self.depth = self.depth - 1;
        }
        let mut frag = String::new();
        push_indent(&mut frag, self.compact, self.depth);
        frag.append("</");
        frag.append(tag);
        frag.append(">\n");
        assert(frag@ =~= indent_text(self.compact, self.depth as nat) + close_text(tag@));
        let ghost before = self.text();
        self.emit(&frag);
        assert(self.text() =~= before + indent_text(self.compact, self.depth as nat)
            + close_text(tag@));
    }

    fn write_tag(&mut self, tag: &str, attrs: &[Attr], self_closing: bool)
        requires
            old(self).out.valid(),
        ensures
            final(self).out.valid(),
            final(self).text() == old(self).text() + indent_text(
                old(self).compact,
                old(self).depth as nat,
            ) + tag_text(tag@, attrs@, self_closing),
            final(self).compact == old(self).compact,
            final(self).depth == old(self).depth,
            *final(final(self).out) == *final(old(self).out),
    {
        let mut frag = String::new();
        push_indent(&mut frag, self.compact, self.depth);
        frag.append("<");
        frag.append(tag);
        push_attrs(&mut frag, attrs);
        if self_closing {
            frag.append("/>\n");
        } else {
            frag.append(">\n");
        }
        assert(frag@ =~= indent_text(self.compact, self.depth as nat) + tag_text(
            tag@,
            attrs@,
            self_closing,
        ));
        let ghost before = self.text();
        self.emit(&frag);
        assert(self.text() =~= before + indent_text(self.compact, self.depth as nat) + tag_text(
            tag@,
            attrs@,
            self_closing,
        ));
    }
}


// ── Attribute lists as text ─────────────────────────────────────────────────

/// Attribute pairs as (name, value) character sequences.
pub open spec fn attr_views(attrs: Seq<(&str, String)>) -> Seq<(Seq<char>, Seq<char>)> {
    attrs.map_values(|a: (&str, String)| (a.0@, a.1@))
}

/// The text of attribute pairs, in order.
pub open spec fn pairs_text(p: Seq<(Seq<char>, Seq<char>)>) -> Seq<char>
    decreases p.len(),
{
    if p.len() == 0 {
        seq![]
    } else {
        pairs_text(p.drop_last()) + attr_text(p.last().0, p.last().1)
    }
}

/// An attribute list reads the same through its views.
pub proof fn attrs_text_views(attrs: Seq<(&str, String)>)
    ensures
        attrs_text(attrs) == pairs_text(attr_views(attrs)),
    decreases attrs.len(),
{
    if attrs.len() > 0 {
        attrs_text_views(attrs.drop_last());
        assert(attr_views(attrs.drop_last()) =~= attr_views(attrs).drop_last());
    }
}

/// One tag line at `depth`: `<tag pairs>` or `<tag pairs/>`, indented.
pub open spec fn line_text(
    compact: bool,
    depth: nat,
    tag: Seq<char>,
    pairs: Seq<(Seq<char>, Seq<char>)>,
    self_closing: bool,
) -> Seq<char> {
    indent_text(compact, depth) + "<"@ + tag + pairs_text(pairs) + if self_closing {
        "/>\n"@
    } else {
        ">\n"@
    }
}

/// One closing line at `depth`.
pub open spec fn close_line(compact: bool, depth: nat, tag: Seq<char>) -> Seq<char> {
    indent_text(compact, depth) + close_text(tag)
}

/// One text-element line at `depth`.
pub open spec fn text_line(compact: bool, depth: nat, tag: Seq<char>, text: Seq<char>) -> Seq<char> {
    indent_text(compact, depth) + text_element_text(tag, text)
}

} // verus!
