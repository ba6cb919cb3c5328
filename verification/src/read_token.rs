//! Reading tokens from a source text with look ahead.
//!
//! A `ReadToken` is the text that is left to read and its byte offset in
//! the whole text. The scanning of characters is done by the `read_token`
//! crate; the functions here state what each scan returns, in bytes.

use std::sync::Arc;
use vstd::prelude::*;
use vstd::string::StringSliceAdditionalSpecFns;
use vstd::utf8::*;
use crate::range::Range;

verus! {

broadcast use vstd::string::group_string_axioms;

#[verifier::external_type_specification]
#[verifier::external_body]
pub struct ExParseNumberError(read_token::ParseNumberError);

#[verifier::external_type_specification]
#[verifier::external_body]
pub struct ExParseStringError(read_token::ParseStringError);

/// Hands out another pointer to the string behind `a` (`Arc::clone`).
/// Claimed: the result points to the same value.
#[verifier::external_body]
pub fn share(a: &Arc<String>) -> (res: Arc<String>)
    ensures
        res == *a,
{
    a.clone()
}

/// Hands out another pointer to the optional string behind `a`.
pub fn share_opt(a: &Option<Arc<String>>) -> (res: Option<Arc<String>>)
    ensures
        res == *a,
{
    match a {
        Some(s) => Some(share(s)),
        None => None,
    }
}

/// Whether a character has the Unicode `White_Space` property: the tab,
/// line feed, vertical tab, form feed, carriage return, space, next line,
/// no-break space, ogham space mark, the spaces from en quad to hair space,
/// line and paragraph separators, narrow no-break space, medium
/// mathematical space and ideographic space.
pub open spec fn char_is_whitespace(c: char) -> bool {
    let v = c as u32;
    ||| 0x09 <= v <= 0x0d
    ||| v == 0x20
    ||| v == 0x85
    ||| v == 0xa0
    ||| v == 0x1680
    ||| 0x2000 <= v <= 0x200a
    ||| v == 0x2028
    ||| v == 0x2029
    ||| v == 0x202f
    ||| v == 0x205f
    ||| v == 0x3000
}

/// Whether a character has the Unicode `White_Space` property, the
/// property that `char::is_whitespace` tests.
pub fn is_whitespace(c: char) -> (res: bool)
    ensures
        res == char_is_whitespace(c),
{
    let v = c as u32;
    (0x09 <= v && v <= 0x0d) || v == 0x20 || v == 0x85 || v == 0xa0 || v == 0x1680
        || (0x2000 <= v && v <= 0x200a) || v == 0x2028 || v == 0x2029 || v == 0x202f
        || v == 0x205f || v == 0x3000
}

/// The first character encoded in `b`.
pub open spec fn head_char(b: Seq<u8>) -> char {
    decode_first_scalar(b) as char
}

/// The number of bytes of the first character encoded in `b`.
pub open spec fn head_len(b: Seq<u8>) -> int {
    length_of_first_scalar(b)
}

/// The bytes after the first character encoded in `b`.
pub open spec fn tail(b: Seq<u8>) -> Seq<u8> {
    pop_first_scalar(b)
}

/// Whether `b` starts with a whole, well formed character.
pub open spec fn has_head(b: Seq<u8>) -> bool {
    b.len() > 0 && valid_first_scalar(b)
}

/// The number of bytes of the longest run of whole characters
/// at the start of `b` that all satisfy `p`.
pub open spec fn prefix_while(b: Seq<u8>, p: spec_fn(char) -> bool) -> int
    decreases b.len(),
{
    if !has_head(b) || !p(head_char(b)) {
        0
    } else {
        head_len(b) + prefix_while(tail(b), p)
    }
}

/// Bytes of whitespace at the start of `b`.
pub open spec fn whitespace_len(b: Seq<u8>) -> int {
    prefix_while(b, |c: char| char_is_whitespace(c))
}

/// Bytes at the start of `b` before any character of `any`.
pub open spec fn until_any_len(b: Seq<u8>, any: Seq<char>) -> int {
    prefix_while(b, |c: char| !any.contains(c))
}

/// Bytes at the start of `b` before whitespace or any character of `any`.
pub open spec fn until_any_or_whitespace_len(b: Seq<u8>, any: Seq<char>) -> int {
    prefix_while(b, |c: char| !char_is_whitespace(c) && !any.contains(c))
}

/// Scans the body of a string literal after the opening quote, `pos` bytes
/// from the start, until the closing quote that is not escaped.
pub open spec fn string_rest(b: Seq<u8>, pos: int, escape: bool) -> Option<int>
    decreases b.len(),
{
    if !has_head(b) {
        None
    } else if !escape && head_char(b) == '\\' {
        string_rest(tail(b), pos + head_len(b), true)
    } else if !escape && head_char(b) == '"' {
        Some(pos + 1)
    } else {
        string_rest(tail(b), pos + head_len(b), false)
    }
}

/// The number of bytes of the string literal at the start of `b`,
/// quotes included, if there is one.
pub open spec fn string_len(b: Seq<u8>) -> Option<int> {
    if !has_head(b) || head_char(b) != '"' {
        None
    } else {
        string_rest(tail(b), head_len(b), false)
    }
}

/// The number of bytes of the number at the start of `b`, as
/// `read_token::ReadToken::number` scans it.
pub uninterp spec fn number_len(b: Seq<u8>, allow_underscore: bool) -> Option<int>;

/// Whether a byte is an ASCII decimal digit.
pub open spec fn is_digit_byte(c: u8) -> bool {
    0x30 <= c <= 0x39
}

/// Where the exponent digits of a numeral `s` begin, scanning from byte
/// `i` as `read_token::ReadToken::parse_number` reads the significand;
/// `frac` tells whether the decimal point was passed. `None` when the
/// scan stops before an `e` or `E`.
pub open spec fn exponent_start(s: Seq<u8>, allow_underscore: bool, i: int, frac: bool) -> Option<int>
    decreases s.len() - i,
{
    if i < 0 || i >= s.len() {
        None
    } else if allow_underscore && s[i] == 0x5fu8 {
        exponent_start(s, allow_underscore, i + 1, frac)
    } else if is_digit_byte(s[i]) {
        exponent_start(s, allow_underscore, i + 1, frac)
    } else if s[i] == 0x65u8 || s[i] == 0x45u8 {
        Some(i + 1)
    } else if !frac && s[i] == 0x2eu8 {
        exponent_start(s, allow_underscore, i + 1, true)
    } else {
        None
    }
}

/// Whether accumulating the exponent digits of `s` from byte `i` on, as a
/// `u64` that holds `acc` so far, overflows: each byte but an allowed
/// underscore first multiplies the value by ten, then adds the digit or
/// ends the scan.
pub open spec fn exponent_overflows(s: Seq<u8>, allow_underscore: bool, i: int, acc: nat) -> bool
    decreases s.len() - i,
{
    if i < 0 || i >= s.len() {
        false
    } else if allow_underscore && s[i] == 0x5fu8 {
        exponent_overflows(s, allow_underscore, i + 1, acc)
    } else if acc * 10 > u64::MAX {
        true
    } else if is_digit_byte(s[i]) {
        let a = acc * 10 + (s[i] - 0x30) as nat;
        a > u64::MAX || exponent_overflows(s, allow_underscore, i + 1, a)
    } else {
        false
    }
}

/// Whether `read_token::ReadToken::parse_number` on the first `n` bytes
/// of `b` may overflow its `u64` exponent, which panics where overflow
/// checks are on. Overflow of the significand, which it reports as an
/// error first, is not told apart here.
pub open spec fn number_overflows(b: Seq<u8>, allow_underscore: bool, n: int) -> bool {
    let s = b.subrange(0, n);
    let start: int = if s.len() > 0 && s[0] == 0x2du8 { 1 } else { 0 };
    match exponent_start(s, allow_underscore, start, false) {
        Some(e) => e < s.len() && exponent_overflows(s, allow_underscore, if s[e] == 0x2du8 || s[e] == 0x2bu8 { e + 1 } else { e }, 0),
        None => false,
    }
}

/// What `read_token::ReadToken::parse_number` gives on the first `n` bytes
/// of `b`: the number written with `Display` and cut to a `usize` by `as`,
/// or the error.
pub uninterp spec fn number_value(b: Seq<u8>, allow_underscore: bool, n: int) -> Result<(Seq<char>, usize), read_token::ParseNumberError>;

/// The error, if any, of `read_token::ReadToken::parse_number` on the first
/// `n` bytes of `b`.
pub open spec fn number_error(b: Seq<u8>, allow_underscore: bool, n: int) -> Option<read_token::ParseNumberError> {
    match number_value(b, allow_underscore, n) {
        Ok(_) => None,
        Err(e) => Some(e),
    }
}

/// What `read_token::ReadToken::parse_string` gives for the string literal
/// of `n` bytes at the start of `b`, read at byte offset `offset`: the
/// unescaped text, or the offset, length and kind of the error.
pub uninterp spec fn string_value(b: Seq<u8>, offset: int, n: int) -> Result<Seq<char>, (int, int, read_token::ParseStringError)>;

/// The view of a position in a text: the bytes that are left and their offset.
pub struct Cursor {
    /// The bytes that are left.
    pub bytes: Seq<u8>,
    /// The byte offset of `bytes` in the whole text.
    pub offset: int,
}

impl Cursor {
    /// Whether the cursor holds well formed text whose end fits in `usize`.
    pub open spec fn wf(self) -> bool {
        &&& valid_utf8(self.bytes)
        &&& 0 <= self.offset
        &&& self.offset + self.bytes.len() <= usize::MAX
    }

    /// The cursor after `n` more bytes.
    pub open spec fn consume(self, n: int) -> Cursor {
        Cursor { bytes: self.bytes.subrange(n, self.bytes.len() as int), offset: self.offset + n }
    }

    /// Whether `n` bytes can be consumed, ending on a character boundary.
    pub open spec fn can_consume(self, n: int) -> bool {
        is_char_boundary(self.bytes, n)
    }

    /// The range of `n` bytes from the cursor.
    pub open spec fn peek(self, n: int) -> Range {
        Range { offset: self.offset as usize, length: n as usize, data: () }
    }

    /// The empty range at the cursor.
    pub open spec fn start(self) -> Range {
        self.peek(0)
    }
}

/// A position in a source text: the text that is left and its byte offset.
#[derive(Clone, Copy, Debug)]
pub struct ReadToken<'a> {
    /// The source that is left.
    pub src: &'a str,
    /// Byte offset of `src` in the whole text.
    pub offset: usize,
}

impl<'a> View for ReadToken<'a> {
    type V = Cursor;

    open spec fn view(&self) -> Cursor {
        Cursor { bytes: self.src.spec_bytes(), offset: self.offset as int }
    }
}

impl<'a> ReadToken<'a> {
    /// Creates a new `ReadToken`. The offset is in bytes.
    pub fn new(src: &'a str, offset: usize) -> (r: ReadToken<'a>)
        ensures
            r.src == src,
            r.offset == offset,
    {
        ReadToken { src, offset }
    }

    /// Consumes `n` bytes.
    pub fn consume(self, n: usize) -> (r: ReadToken<'a>)
        requires
            self@.can_consume(n as int),
            self.offset + n <= usize::MAX,
        ensures
            r@ == self@.consume(n as int),
    {
        broadcast use encode_utf8_valid_utf8;
        if n == 0 {
            assert(self@.bytes.subrange(0, self@.bytes.len() as int) =~= self@.bytes);
            return self;
        }
        let (_, rest) = self.src.split_at(n);
        ReadToken { src: rest, offset: self.offset + n }
    }

    /// Reads the first `n` bytes as a string.
    pub fn raw_string(&self, n: usize) -> (s: String)
        requires
            self@.can_consume(n as int),
        ensures
            s@ == decode_utf8(self@.bytes.subrange(0, n as int)),
    {
        broadcast use encode_utf8_valid_utf8, encode_utf8_decode_utf8;
        let (first, _) = self.src.split_at(n);
        first.to_owned()
    }

    /// Returns the difference in offset.
    pub fn subtract(&self, rhs: &Self) -> (r: Range)
        requires
            rhs.offset <= self.offset,
        ensures
            (r == Range { offset: rhs.offset, length: (self.offset - rhs.offset) as usize, data: () }),
    {
        Range::new(rhs.offset, self.offset - rhs.offset)
    }

    /// Returns an empty range at current offset.
    pub fn start(&self) -> (r: Range)
        ensures
            r == self@.start(),
    {
        Range::empty(self.offset)
    }

    /// Peek a number of bytes ahead.
    pub fn peek(&self, n: usize) -> (r: Range)
        ensures
            r == self@.peek(n as int),
    {
        Range::new(self.offset, n)
    }

    /// The first character and its number of bytes, if any text is left.
    pub fn peek_char(&self) -> (res: Option<(char, usize)>)
        ensures
            res == if self@.bytes.len() == 0 { None } else { Some((head_char(self@.bytes), head_len(self@.bytes) as usize)) },
            res is Some ==> has_head(self@.bytes),
    {
        broadcast use encode_utf8_valid_utf8, char_u32_cast;
        let bytes = self.src.as_bytes();
        if bytes.len() == 0 {
            return None;
        }
        proof {
            assert(self.src@.len() > 0) by {
                if self.src@.len() == 0 {
                    assert(encode_utf8(self.src@) =~= Seq::<u8>::empty());
                }
            }
            encode_utf8_first_scalar(self.src@);
            assert(valid_first_scalar(self@.bytes));
        }
        let mut it = self.src.chars();
        let c = it.next();
        let b0 = bytes[0];
        let w: usize = if b0 <= 0x7f {
            1
        } else if b0 <= 0xdf {
            2
        } else if b0 <= 0xef {
            3
        } else {
            4
        };
        assert(w == head_len(self@.bytes));
        assert(c == Some(self.src@[0]));
        proof {
            char_u32_cast(self.src@[0], decode_first_scalar(self@.bytes));
        }
        match c {
            Some(c) => Some((c, w)),
            None => None,
        }
    }

    /// Reads an expected tag.
    /// Calls `read_token::ReadToken::tag`; claimed: it matches when the
    /// bytes of `tag` start the source, and then covers them.
    #[verifier::external_body]
    pub fn tag(&self, tag: &str) -> (res: Option<Range>)
        ensures
            res == if is_prefix(tag.spec_bytes(), self@.bytes) { Some(self@.peek(tag.spec_bytes().len() as int)) } else { None },
    {
        read_token::ReadToken::new(self.src, self.offset).tag(tag).map(|r| Range::new(r.offset, r.length))
    }

    /// Reads whitespace.
    /// Calls `read_token::ReadToken::whitespace`; claimed: the range covers
    /// the whitespace characters at the start.
    #[verifier::external_body]
    pub fn whitespace(&self) -> (res: Range)
        ensures
            res == self@.peek(whitespace_len(self@.bytes)),
    {
        let r = read_token::ReadToken::new(self.src, self.offset).whitespace();
        Range::new(r.offset, r.length)
    }

    /// Reads until any character in `any`.
    /// Calls `read_token::ReadToken::until_any`; claimed: the range covers
    /// the characters at the start that are not in `any`.
    #[verifier::external_body]
    pub fn until_any(&self, any: &str) -> (res: Range)
        ensures
            res == self@.peek(until_any_len(self@.bytes, any@)),
    {
        let (r, _) = read_token::ReadToken::new(self.src, self.offset).until_any(any);
        Range::new(r.offset, r.length)
    }

    /// Reads until any character in `any` or whitespace.
    /// Calls `read_token::ReadToken::until_any_or_whitespace`; claimed: the
    /// range covers the characters at the start that are neither
    /// whitespace nor in `any`.
    #[verifier::external_body]
    pub fn until_any_or_whitespace(&self, any: &str) -> (res: Range)
        ensures
            res == self@.peek(until_any_or_whitespace_len(self@.bytes, any@)),
    {
        let (r, _) = read_token::ReadToken::new(self.src, self.offset).until_any_or_whitespace(any);
        Range::new(r.offset, r.length)
    }

    /// Reads a string literal with character escapes.
    /// Calls `read_token::ReadToken::string`; claimed: the range covers the
    /// literal up to the first closing quote that is not escaped.
    #[verifier::external_body]
    pub fn string(&self) -> (res: Option<Range>)
        ensures
            res == match string_len(self@.bytes) { Some(n) => Some(self@.peek(n)), None => None },
    {
        read_token::ReadToken::new(self.src, self.offset).string().map(|r| Range::new(r.offset, r.length))
    }

    /// Reads a number.
    /// Calls `read_token::ReadToken::number`; claimed: the range has the
    /// length `number_len` names, which ends on a character boundary after
    /// at least one byte.
    #[verifier::external_body]
    pub fn number(&self, allow_underscore: bool) -> (res: Option<Range>)
        ensures
            res == match number_len(self@.bytes, allow_underscore) { Some(n) => Some(self@.peek(n)), None => None },
            res matches Some(r) ==> number_len(self@.bytes, allow_underscore) == Some(r.length as int) && 0 < r.length && self@.can_consume(r.length as int),
    {
        let settings = read_token::NumberSettings { allow_underscore };
        read_token::ReadToken::new(self.src, self.offset).number(&settings).map(|r| Range::new(r.offset, r.length))
    }

    /// Parses the number of `n` bytes at the start; gives the value written
    /// with `Display` and the value cut to a `usize` by `as`.
    /// Calls `read_token::ReadToken::parse_number`; claimed: the result is
    /// `number_value` of the bytes, settings and length.
    #[verifier::external_body]
    pub fn parse_number(&self, allow_underscore: bool, n: usize) -> (res: Result<(String, usize), read_token::ParseNumberError>)
        requires
            number_len(self@.bytes, allow_underscore) == Some(n as int),
            !number_overflows(self@.bytes, allow_underscore, n as int),
        ensures
            (res matches Ok((s, u)) ==> number_value(self@.bytes, allow_underscore, n as int) == Ok::<(Seq<char>, usize), read_token::ParseNumberError>((s@, u))),
            (res matches Err(e) ==> number_value(self@.bytes, allow_underscore, n as int) == Err::<(Seq<char>, usize), read_token::ParseNumberError>(e)),
    {
        let settings = read_token::NumberSettings { allow_underscore };
        match read_token::ReadToken::new(self.src, self.offset).parse_number(&settings, n) {
            Ok(v) => Ok((format!("{}", v), v as usize)),
            Err(err) => Err(err),
        }
    }

    /// Whether parsing the number of `n` bytes at the start would overflow
    /// its exponent.
    pub fn number_overflows(&self, allow_underscore: bool, n: usize) -> (res: bool)
        requires
            n <= self@.bytes.len(),
        ensures
            res == number_overflows(self@.bytes, allow_underscore, n as int),
    {
        let bytes = self.src.as_bytes();
        let ghost s = self@.bytes.subrange(0, n as int);
        let start: usize = if n > 0 && bytes[0] == 0x2d { 1 } else { 0 };
        if n > 0 {
            assert(s[0] == bytes@[0]);
        }
        match exponent_start_exec(bytes, n, allow_underscore, start, false) {
            None => false,
            Some(e) => {
                if e >= n {
                    false
                } else {
                    assert(s[e as int] == bytes@[e as int]);
                    let j: usize = if bytes[e] == 0x2d || bytes[e] == 0x2b { e + 1 } else { e };
                    exponent_overflows_exec(bytes, n, allow_underscore, j)
                }
            },
        }
    }

    /// Checks the number of `n` bytes at the start.
    pub fn number_error(&self, allow_underscore: bool, n: usize) -> (res: Option<read_token::ParseNumberError>)
        requires
            number_len(self@.bytes, allow_underscore) == Some(n as int),
            !number_overflows(self@.bytes, allow_underscore, n as int),
        ensures
            res == number_error(self@.bytes, allow_underscore, n as int),
    {
        match self.parse_number(allow_underscore, n) {
            Ok(_) => None,
            Err(err) => Some(err),
        }
    }

    /// Parses the string literal of `n` bytes at the start into its text,
    /// by the JSON rules of escapes.
    /// Calls `read_token::ReadToken::parse_string`; claimed: the result is
    /// `string_value` of the bytes, offset and length.
    #[verifier::external_body]
    pub fn parse_string(&self, n: usize) -> (res: Result<String, Range<read_token::ParseStringError>>)
        requires
            self@.wf(),
            string_len(self@.bytes) == Some(n as int),
        ensures
            (res matches Ok(s) ==> string_value(self@.bytes, self.offset as int, n as int) == Ok::<Seq<char>, (int, int, read_token::ParseStringError)>(s@)),
            (res matches Err(e) ==> string_value(self@.bytes, self.offset as int, n as int) == Err::<Seq<char>, (int, int, read_token::ParseStringError)>((e.offset as int, e.length as int, e.data))),
    {
        match read_token::ReadToken::new(self.src, self.offset).parse_string(n) {
            Ok(s) => Ok(s),
            Err(e) => Err(Range { offset: e.offset, length: e.length, data: e.data }),
        }
    }
}

/// Where the exponent digits of the first `n` bytes begin, scanning the
/// significand from byte `i`.
fn exponent_start_exec(bytes: &[u8], n: usize, allow_underscore: bool, from: usize, in_frac: bool) -> (r: Option<usize>)
    requires
        n <= bytes@.len(),
    ensures
        r matches Some(e) ==> e <= n,
        (match r { Some(e) => Some(e as int), None => None }) == exponent_start(bytes@.subrange(0, n as int), allow_underscore, from as int, in_frac),
{
    let ghost s = bytes@.subrange(0, n as int);
    let mut i = from;
    let mut frac = in_frac;
    while i < n
        invariant
            n <= bytes@.len(),
            s == bytes@.subrange(0, n as int),
            exponent_start(s, allow_underscore, from as int, in_frac) == exponent_start(s, allow_underscore, i as int, frac),
        decreases n - i,
    {
        let c = bytes[i];
        assert(s[i as int] == c);
        if allow_underscore && c == 0x5f {
            i = i + 1;
        } else if 0x30 <= c && c <= 0x39 {
            i = i + 1;
        } else if c == 0x65 || c == 0x45 {
            return Some(i + 1);
        } else if !frac && c == 0x2e {
            frac = true;
            i = i + 1;
        } else {
            return None;
        }
    }
    None
}

/// Whether accumulating the exponent digits of the first `n` bytes from
/// byte `j` on overflows a `u64`.
fn exponent_overflows_exec(bytes: &[u8], n: usize, allow_underscore: bool, from: usize) -> (r: bool)
    requires
        n <= bytes@.len(),
    ensures
        r == exponent_overflows(bytes@.subrange(0, n as int), allow_underscore, from as int, 0),
{
    let ghost s = bytes@.subrange(0, n as int);
    let mut j = from;
    let mut acc: u64 = 0;
    while j < n
        invariant
            n <= bytes@.len(),
            s == bytes@.subrange(0, n as int),
            exponent_overflows(s, allow_underscore, from as int, 0) == exponent_overflows(s, allow_underscore, j as int, acc as nat),
        decreases n - j,
    {
        let c = bytes[j];
        assert(s[j as int] == c);
        if allow_underscore && c == 0x5f {
            j = j + 1;
        } else if acc > 0xffff_ffff_ffff_ffff / 10 {
            assert(acc as nat * 10 > u64::MAX) by (nonlinear_arith)
                requires acc > 0xffff_ffff_ffff_ffffu64 / 10;
            return true;
        } else {
            assert(acc as nat * 10 <= u64::MAX) by (nonlinear_arith)
                requires acc <= 0xffff_ffff_ffff_ffffu64 / 10;
            if 0x30 <= c && c <= 0x39 {
                let d: u64 = (c - 0x30) as u64;
                let m: u64 = acc * 10;
                if m > 0xffff_ffff_ffff_ffff - d {
                    return true;
                }
                acc = m + d;
                j = j + 1;
            } else {
                return false;
            }
        }
    }
    false
}

/// Whether `a` is a prefix of `b`.
pub open spec fn is_prefix(a: Seq<u8>, b: Seq<u8>) -> bool {
    a.len() <= b.len() && b.subrange(0, a.len() as int) == a
}

/// Consuming `n1` bytes and then `n2` bytes consumes `n1 + n2` bytes
/// ending on a character boundary.
pub proof fn lemma_boundary_add(b: Seq<u8>, n1: int, n2: int)
    requires
        valid_utf8(b),
        is_char_boundary(b, n1),
        is_char_boundary(b.subrange(n1, b.len() as int), n2),
    ensures
        is_char_boundary(b, n1 + n2),
        0 <= n1 + n2 <= b.len(),
        b.subrange(n1, b.len() as int).subrange(n2, b.len() - n1) =~= b.subrange(n1 + n2, b.len() as int),
{
    broadcast use valid_utf8_split, is_char_boundary_start_end_of_seq;
    lemma_boundary_range(b, n1);
    let rest = b.subrange(n1, b.len() as int);
    lemma_boundary_range(rest, n2);
    if n1 + n2 < b.len() && n2 > 0 {
        is_char_boundary_iff_is_leading_byte(rest, n2);
        assert(rest[n2] == b[n1 + n2]);
        is_char_boundary_iff_is_leading_byte(b, n1 + n2);
    } else if n2 == 0 {
    }
}

/// A character boundary lies within the bytes.
pub proof fn lemma_boundary_range(b: Seq<u8>, n: int)
    requires
        valid_utf8(b),
        is_char_boundary(b, n),
    ensures
        0 <= n <= b.len(),
{
    reveal_with_fuel(is_char_boundary, 1);
}

/// The bytes after a character boundary are well formed text.
pub proof fn lemma_consume_wf(c: Cursor, n: int)
    requires
        c.wf(),
        c.can_consume(n),
    ensures
        c.consume(n).wf(),
        0 <= n <= c.bytes.len(),
{
    broadcast use valid_utf8_split;
    lemma_boundary_range(c.bytes, n);
}

/// The first character of well formed text is whole, and shortens it.
pub proof fn lemma_head(b: Seq<u8>)
    requires
        valid_utf8(b),
        b.len() > 0,
    ensures
        has_head(b),
        1 <= head_len(b) <= b.len(),
        tail(b) == b.subrange(head_len(b), b.len() as int),
        valid_utf8(tail(b)),
        is_char_boundary(b, head_len(b)),
{
    reveal_with_fuel(valid_utf8, 2);
    reveal_with_fuel(is_char_boundary, 2);
}

/// A first character below 0x80 takes one byte.
pub proof fn lemma_ascii_head(b: Seq<u8>)
    requires
        valid_utf8(b),
        b.len() > 0,
        (head_char(b) as u32) < 0x80,
    ensures
        head_len(b) == 1,
{
    decode_utf8_first_scalar(b);
    lemma_head(b);
    let v = (decode_first_scalar(b) as char) as u32;
    assert(encode_scalar(v).len() == 1);
    assert(take_first_scalar(b).len() == head_len(b));
}

/// The length that `prefix_while` gives ends on a character boundary.
pub proof fn lemma_prefix_while(b: Seq<u8>, p: spec_fn(char) -> bool)
    requires
        valid_utf8(b),
    ensures
        0 <= prefix_while(b, p) <= b.len(),
        is_char_boundary(b, prefix_while(b, p)),
    decreases b.len(),
{
    if b.len() > 0 {
        lemma_head(b);
        if p(head_char(b)) {
            lemma_prefix_while(tail(b), p);
            lemma_boundary_add(b, head_len(b), prefix_while(tail(b), p));
        }
    }
}

/// A string literal that `string_rest` finds ends on a character boundary.
pub proof fn lemma_string_rest(b: Seq<u8>, pos: int, escape: bool)
    requires
        valid_utf8(b),
    ensures
        string_rest(b, pos, escape) matches Some(n) ==> pos + 1 <= n <= pos + b.len() && is_char_boundary(b, n - pos),
    decreases b.len(),
{
    if b.len() > 0 {
        lemma_head(b);
        if !escape && head_char(b) == '\\' {
            lemma_string_rest(tail(b), pos + head_len(b), true);
            if let Some(n) = string_rest(tail(b), pos + head_len(b), true) {
                lemma_boundary_add(b, head_len(b), n - pos - head_len(b));
            }
        } else if !escape && head_char(b) == '"' {
            lemma_ascii_head(b);
        } else {
            lemma_string_rest(tail(b), pos + head_len(b), false);
            if let Some(n) = string_rest(tail(b), pos + head_len(b), false) {
                lemma_boundary_add(b, head_len(b), n - pos - head_len(b));
            }
        }
    }
}

/// A string literal covers at least its two quotes and ends on a character boundary.
pub proof fn lemma_string_len(b: Seq<u8>)
    requires
        valid_utf8(b),
    ensures
        string_len(b) matches Some(n) ==> 2 <= n <= b.len() && is_char_boundary(b, n),
{
    if b.len() > 0 {
        lemma_head(b);
        if head_char(b) == '"' {
            lemma_string_rest(tail(b), head_len(b), false);
            if let Some(n) = string_len(b) {
                lemma_boundary_add(b, head_len(b), n - head_len(b));
            }
        }
    }
}

} // verus!
