//! The string codecs: length-prefixed, NUL-terminated and fixed-size
//! strings, each stored either in the default code page (Windows-1252)
//! or as UTF-16 little-endian units.

use vstd::prelude::*;
use vstd::slice::slice_subrange;

use crate::bytes::{enc_u16, le16_at, lemma_enc_le16, lemma_le16_enc, read_u16, write_u16};
use crate::flags::LinkFlags;
use crate::Error;

verus! {

/// A caller-supplied code page for single-byte strings. The supported
/// pages are those whose decoding is total, one character per byte,
/// and injective, so that every string read re-encodes to the very
/// bytes it came from.
#[derive(Clone, Copy, Debug, PartialEq, Eq, Structural)]
pub enum CodePage {
    Windows1252,
}

/// How a string is stored: one byte per character in a caller-supplied
/// code page, or UTF-16 little-endian units.
#[derive(Clone, Copy, Debug, PartialEq, Eq, Structural)]
pub enum StringEncoding {
    CodePage(CodePage),
    Unicode,
}

impl StringEncoding {
    /// The encoding a LinkFlags value selects for StringData, with the
    /// caller's code page for the non-Unicode reading.
    pub open spec fn spec_from_flags(flags: LinkFlags, cp: CodePage) -> StringEncoding {
        if flags.spec_is_unicode() {
            StringEncoding::Unicode
        } else {
            StringEncoding::CodePage(cp)
        }
    }

    /// Selects the StringData encoding from the header flags.
    pub fn from_flags(flags: &LinkFlags, cp: CodePage) -> (r: StringEncoding)
        ensures
            r == StringEncoding::spec_from_flags(*flags, cp),
    {
        if flags.contains(crate::flags::IS_UNICODE) {
            StringEncoding::Unicode
        } else {
            StringEncoding::CodePage(cp)
        }
    }
}

/// The characters a code page decodes a byte sequence to.
pub open spec fn code_page_chars_of(cp: CodePage, b: Seq<u8>) -> Seq<char> {
    match cp {
        CodePage::Windows1252 => cp1252_chars_of(b),
    }
}

/// The bytes a code page encodes a character sequence to, where every
/// character is representable.
pub open spec fn code_page_bytes_of(cp: CodePage, s: Seq<char>) -> Option<Seq<u8>> {
    match cp {
        CodePage::Windows1252 => cp1252_bytes_of(s),
    }
}

/// Decodes a byte sequence in the given code page.
pub(crate) fn code_page_decode(cp: CodePage, b: &[u8]) -> (r: String)
    ensures
        r@ == code_page_chars_of(cp, b@),
        r@.len() == b@.len(),
        code_page_bytes_of(cp, r@) == Some(b@),
{
    match cp {
        CodePage::Windows1252 => cp1252_decode(b),
    }
}

/// Encodes a string in the given code page, where every character is
/// representable.
pub(crate) fn code_page_encode(cp: CodePage, s: &str) -> (r: Option<Vec<u8>>)
    ensures
        (r is Some) == (code_page_bytes_of(cp, s@) is Some),
        r matches Some(v) ==> Some(v@) == code_page_bytes_of(cp, s@) && v@.len() == s@.len()
            && code_page_chars_of(cp, v@) == s@,
{
    match cp {
        CodePage::Windows1252 => cp1252_encode(s),
    }
}

/// The characters the default code page decodes a byte sequence to:
/// a function of the bytes alone.
pub uninterp spec fn cp1252_chars_of(b: Seq<u8>) -> Seq<char>;

/// The bytes the default code page encodes a character sequence to,
/// where every character is representable: a function of the characters
/// alone.
pub uninterp spec fn cp1252_bytes_of(s: Seq<char>) -> Option<Seq<u8>>;

/// Relies on encoding_rs's WINDOWS_1252 decode without BOM handling:
/// the code page defines every byte, each byte decodes to exactly one
/// character, and encoding the characters gives back the bytes.
#[verifier::external_body]
pub(crate) fn cp1252_decode(b: &[u8]) -> (r: String)
    ensures
        r@ == cp1252_chars_of(b@),
        r@.len() == b@.len(),
        cp1252_bytes_of(r@) == Some(b@),
{
    let (cow, _had_errors) = encoding_rs::WINDOWS_1252.decode_without_bom_handling(b);
    cow.into_owned()
}

/// Relies on encoding_rs's WINDOWS_1252 encode: a string encodes, one
/// byte per character, exactly when every character is in the code
/// page, and decoding those bytes gives back the characters.
#[verifier::external_body]
fn cp1252_encode(s: &str) -> (r: Option<Vec<u8>>)
    ensures
        (r is Some) == (cp1252_bytes_of(s@) is Some),
        r matches Some(v) ==> Some(v@) == cp1252_bytes_of(s@) && v@.len() == s@.len()
            && cp1252_chars_of(v@) == s@,
{
    let (cow, _, had_errors) = encoding_rs::WINDOWS_1252.encode(s);
    if had_errors {
        None
    } else {
        Some(cow.into_owned())
    }
}

/// The UTF-16 code units of a character sequence: a function of the
/// characters alone.
pub uninterp spec fn utf16_units_of(s: Seq<char>) -> Seq<u16>;

/// The characters a UTF-16 unit sequence decodes to, where it is valid
/// UTF-16: a function of the units alone.
pub uninterp spec fn utf16_chars_of(u: Seq<u16>) -> Option<Seq<char>>;

/// Relies on str::encode_utf16: each character becomes one or two
/// units, and decoding the units gives back the characters.
#[verifier::external_body]
fn utf16_encode(s: &str) -> (r: Vec<u16>)
    ensures
        r@ == utf16_units_of(s@),
        utf16_chars_of(r@) == Some(s@),
        s@.len() <= r@.len() <= 2 * s@.len(),
{
    s.encode_utf16().collect()
}

/// Relies on String::from_utf16: decoding succeeds exactly on valid
/// UTF-16, and encoding the decoded string gives back the units.
#[verifier::external_body]
pub(crate) fn utf16_decode(u: &[u16]) -> (r: Option<String>)
    ensures
        (r is Some) == (utf16_chars_of(u@) is Some),
        r matches Some(s) ==> Some(s@) == utf16_chars_of(u@) && utf16_units_of(s@) == u@,
{
    String::from_utf16(u).ok()
}

/// The little-endian byte form of a unit sequence.
pub open spec fn units_bytes(u: Seq<u16>) -> Seq<u8>
    decreases u.len(),
{
    if u.len() == 0 {
        Seq::empty()
    } else {
        enc_u16(u[0]) + units_bytes(u.drop_first())
    }
}

/// The units stored at `i`, two bytes each, `count` of them.
pub open spec fn units_at(s: Seq<u8>, i: int, count: int) -> Seq<u16> {
    Seq::new(count as nat, |k: int| le16_at(s, i + 2 * k))
}

/// A unit sequence takes two bytes per unit.
pub proof fn lemma_units_bytes_len(u: Seq<u16>)
    ensures
        units_bytes(u).len() == 2 * u.len(),
    decreases u.len(),
{
    if u.len() > 0 {
        lemma_units_bytes_len(u.drop_first());
    }
}

/// Units read off a byte sequence re-encode to the very bytes they came
/// from.
pub proof fn lemma_units_at_bytes(s: Seq<u8>, i: int, count: int)
    requires
        0 <= i,
        0 <= count,
        i + 2 * count <= s.len(),
    ensures
        units_bytes(units_at(s, i, count)) =~= s.subrange(i, i + 2 * count),
    decreases count,
{
    let u = units_at(s, i, count);
    if count > 0 {
        lemma_enc_le16(s, i);
        lemma_units_at_bytes(s, i + 2, count - 1);
        assert(u.drop_first() =~= units_at(s, i + 2, count - 1));
        lemma_units_bytes_len(u.drop_first());
        assert(units_bytes(u) =~= enc_u16(u[0]) + units_bytes(u.drop_first()));
        assert(enc_u16(u[0]) =~= s.subrange(i, i + 2));
        assert(units_bytes(u) =~= s.subrange(i, i + 2) + s.subrange(i + 2, i + 2 * count));
    }
}

/// Encoded units decode, unit by unit, to the sequence they encode.
pub proof fn lemma_units_bytes_at(u: Seq<u16>)
    ensures
        units_at(units_bytes(u), 0, u.len() as int) =~= u,
    decreases u.len(),
{
    let s = units_bytes(u);
    lemma_units_bytes_len(u);
    if u.len() > 0 {
        lemma_le16_enc(u[0]);
        lemma_units_bytes_at(u.drop_first());
        let rest = units_bytes(u.drop_first());
        lemma_units_bytes_len(u.drop_first());
        assert forall|k: int| 0 <= k < u.len() implies units_at(s, 0, u.len() as int)[k] == u[k] by {
            if k == 0 {
                assert(s[0] == enc_u16(u[0])[0] && s[1] == enc_u16(u[0])[1]);
                assert(le16_at(s, 0) == le16_at(enc_u16(u[0]), 0));
            } else {
                assert(s[2 * k] == rest[2 * (k - 1)] && s[2 * k + 1] == rest[2 * (k - 1) + 1]);
                assert(le16_at(s, 2 * k) == le16_at(rest, 2 * (k - 1)));
                assert(units_at(rest, 0, u.len() - 1)[k - 1] == u.drop_first()[k - 1]);
            }
        }
    }
}

/// Copies the bytes between `a` and `b` out of `data`.
pub fn copy_range(data: &[u8], a: usize, b: usize) -> (r: Vec<u8>)
    requires
        a <= b <= data@.len(),
    ensures
        r@ == data@.subrange(a as int, b as int),
{
    slice_to_vec_bytes(slice_subrange(data, a, b))
}

/// Copies a byte slice into a vector.
fn slice_to_vec_bytes(s: &[u8]) -> (r: Vec<u8>)
    ensures
        r@ == s@,
{
    vstd::slice::slice_to_vec(s)
}

/// Reads the `count` little-endian units stored at `pos`.
pub(crate) fn read_units(data: &[u8], pos: usize, count: usize) -> (r: Vec<u16>)
    requires
        pos + 2 * count <= data@.len(),
    ensures
        r@ =~= units_at(data@, pos as int, count as int),
{
    let n = data.len();
    let mut r: Vec<u16> = Vec::new();
    let mut k: usize = 0;
    while k < count
        invariant
            k <= count,
            pos + 2 * count <= n == data@.len(),
            r@ =~= units_at(data@, pos as int, k as int),
        decreases count - k,
    {
        let u = read_u16(data, pos + 2 * k);
        r.push(u);
        k = k + 1;
        proof {
            assert(r@ =~= units_at(data@, pos as int, k as int));
        }
    }
    r
}

/// Appends the little-endian bytes of every unit of `u`.
fn write_units(out: &mut Vec<u8>, u: &Vec<u16>)
    ensures
        final(out)@ =~= old(out)@ + units_bytes(u@),
{
    let count = u.len();
    let mut k: usize = 0;
    while k < count
        invariant
            k <= count == u@.len(),
            out@ =~= old(out)@ + units_bytes(u@.subrange(0, k as int)),
        decreases count - k,
    {
        write_u16(out, u[k]);
        k = k + 1;
        proof {
            lemma_units_bytes_snoc(u@.subrange(0, k as int));
            assert(u@.subrange(0, k as int).drop_last() =~= u@.subrange(0, k - 1));
            assert(u@.subrange(0, k as int).last() == u@[k - 1]);
        }
    }
    proof {
        assert(u@.subrange(0, count as int) =~= u@);
    }
}

/// The byte form of a unit sequence ends with its last unit's bytes.
proof fn lemma_units_bytes_snoc(u: Seq<u16>)
    requires
        u.len() > 0,
    ensures
        units_bytes(u) =~= units_bytes(u.drop_last()) + enc_u16(u.last()),
    decreases u.len(),
{
    if u.len() == 1 {
        assert(u.drop_last() =~= Seq::<u16>::empty());
        assert(u.drop_first() =~= Seq::<u16>::empty());
        assert(units_bytes(u) =~= enc_u16(u[0]) + units_bytes(u.drop_first()));
        assert(u.last() == u[0]);
    } else {
        lemma_units_bytes_snoc(u.drop_first());
        assert(u.drop_first().drop_last() =~= u.drop_last().drop_first());
        assert(units_bytes(u) =~= enc_u16(u[0]) + units_bytes(u.drop_first()));
        assert(u.drop_first().last() == u.last());
        assert(u.drop_last().len() > 0 && u.drop_last()[0] == u[0]);
        assert(units_bytes(u.drop_last()) =~= enc_u16(u[0]) + units_bytes(
            u.drop_last().drop_first(),
        ));
    }
}

/// The wire form of a length-prefixed string: a unit count, then that
/// many code-page bytes or UTF-16 units. A string whose encoding fails
/// or does not fit the 16-bit count has no wire form.
#[verifier::opaque]
pub open spec fn sized_string_bytes(s: Seq<char>, enc: StringEncoding) -> Option<Seq<u8>> {
    match enc {
        StringEncoding::CodePage(cp) => match code_page_bytes_of(cp, s) {
            Some(b) => if b.len() <= 0xFFFF {
                Some(enc_u16(b.len() as u16) + b)
            } else {
                None
            },
            None => None,
        },
        StringEncoding::Unicode => {
            let u = utf16_units_of(s);
            if u.len() <= 0xFFFF {
                Some(enc_u16(u.len() as u16) + units_bytes(u))
            } else {
                None
            }
        },
    }
}

/// Parses a length-prefixed string at `i`: a 16-bit unit count, then
/// that many code-page bytes or UTF-16 units. An input that ends inside
/// the string fails at the input's end; units that are not valid UTF-16
/// fail just past them.
#[verifier::opaque]
pub open spec fn parse_sized_string(s: Seq<u8>, i: int, enc: StringEncoding) -> crate::bytes::Decoded<
    Seq<char>,
> {
    if i + 2 > s.len() {
        crate::bytes::Decoded::Fail(s.len() as int)
    } else {
        let count = le16_at(s, i) as int;
        match enc {
            StringEncoding::CodePage(cp) => {
                if i + 2 + count > s.len() {
                    crate::bytes::Decoded::Fail(s.len() as int)
                } else {
                    crate::bytes::Decoded::Found(
                        code_page_chars_of(cp, s.subrange(i + 2, i + 2 + count)),
                        i + 2 + count,
                    )
                }
            },
            StringEncoding::Unicode => {
                if i + 2 + 2 * count > s.len() {
                    crate::bytes::Decoded::Fail(s.len() as int)
                } else {
                    match utf16_chars_of(units_at(s, i + 2, count)) {
                        Some(cs) => crate::bytes::Decoded::Found(cs, i + 2 + 2 * count),
                        None => crate::bytes::Decoded::Fail(i + 2 + 2 * count),
                    }
                }
            },
        }
    }
}

/// A successful parse carries over to any byte sequence holding the
/// same bytes at another position.
pub proof fn lemma_parse_sized_string_at(
    s1: Seq<u8>,
    i1: int,
    s2: Seq<u8>,
    i2: int,
    v: Seq<char>,
    e1: int,
    enc: StringEncoding,
)
    requires
        parse_sized_string(s1, i1, enc) == crate::bytes::Decoded::Found(v, e1),
        0 <= i1 <= e1 <= s1.len(),
        0 <= i2,
        i2 + (e1 - i1) <= s2.len(),
        s2.subrange(i2, i2 + (e1 - i1)) == s1.subrange(i1, e1),
    ensures
        parse_sized_string(s2, i2, enc) == crate::bytes::Decoded::Found(v, i2 + (e1 - i1)),
{
    reveal(parse_sized_string);
    let len = e1 - i1;
    assert forall|k: int| 0 <= k < len implies s2[i2 + k] == #[trigger] s1[i1 + k] by {
        assert(s2.subrange(i2, i2 + len)[k] == s2[i2 + k]);
        assert(s1.subrange(i1, e1)[k] == s1[i1 + k]);
    }
    assert(s2[i2 + 0] == s1[i1 + 0] && s2[i2 + 1] == s1[i1 + 1]);
    assert(le16_at(s2, i2) == le16_at(s1, i1));
    let count = le16_at(s1, i1) as int;
    match enc {
        StringEncoding::CodePage(cp) => {
            assert(s2.subrange(i2 + 2, i2 + 2 + count) =~= s1.subrange(i1 + 2, i1 + 2 + count))
                by {
                assert forall|k: int| 0 <= k < count implies #[trigger] s2.subrange(
                    i2 + 2,
                    i2 + 2 + count,
                )[k] == s1.subrange(i1 + 2, i1 + 2 + count)[k] by {
                    assert(s2[i2 + (2 + k)] == s1[i1 + (2 + k)]);
                }
            }
        },
        StringEncoding::Unicode => {
            assert(units_at(s2, i2 + 2, count) =~= units_at(s1, i1 + 2, count)) by {
                assert forall|k: int| 0 <= k < count implies #[trigger] units_at(
                    s2,
                    i2 + 2,
                    count,
                )[k] == units_at(s1, i1 + 2, count)[k] by {
                    assert(s2[i2 + (2 + 2 * k)] == s1[i1 + (2 + 2 * k)]);
                    assert(s2[i2 + (2 + 2 * k + 1)] == s1[i1 + (2 + 2 * k + 1)]);
                    assert(le16_at(s2, i2 + 2 + 2 * k) == le16_at(s1, i1 + 2 + 2 * k));
                }
            }
        },
    }
}

/// A length-prefixed string, as StringData stores its five slots.
#[derive(Clone, Debug, PartialEq, Eq)]
pub struct SizedString(pub String);

impl SizedString {
    /// The held characters.
    pub fn as_str(&self) -> (r: &str)
        ensures
            r@ == self.0@,
    {
        self.0.as_str()
    }
}

/// Reads a length-prefixed string at `pos`: a 16-bit unit count, then
/// that many bytes or units, decoded in `enc`. The string read always
/// re-encodes to the very bytes it came from. Reading fails on an input
/// that ends inside the string, or on units that are not valid UTF-16,
/// with the offset just past what was read.
pub fn read_sized_string(data: &[u8], pos: usize, enc: StringEncoding) -> (r: Result<
    (SizedString, usize),
    Error,
>)
    requires
        pos + 2 <= data@.len(),
    ensures
        match r {
            Ok((v, end)) => {
                &&& pos + 2 <= end <= data@.len()
                &&& parse_sized_string(data@, pos as int, enc) == crate::bytes::Decoded::Found(
                    v.0@,
                    end as int,
                )
                &&& sized_string_bytes(v.0@, enc) == Some(
                    data@.subrange(pos as int, end as int),
                )
            },
            Err(e) => {
                &&& parse_sized_string(data@, pos as int, enc) matches crate::bytes::Decoded::Fail(
                    o,
                )
                &&& e matches Error::Parse { offset, .. } && offset == o
            },
        },
{
    proof {
        reveal(parse_sized_string);
        reveal(sized_string_bytes);
    }
    let n = data.len();
    let count = read_u16(data, pos) as usize;
    match enc {
        StringEncoding::CodePage(cp) => {
            if n - (pos + 2) < count {
                return Err(
                    Error::Parse {
                        offset: n as u64,
                        message: crate::text::short_input_message(),
                    },
                );
            }
            let end = pos + 2 + count;
            let buf = copy_range(data, pos + 2, end);
            let s = code_page_decode(cp, buf.as_slice());
            proof {
                lemma_enc_le16(data@, pos as int);
                assert(data@.subrange(pos as int, end as int) =~= data@.subrange(
                    pos as int,
                    pos + 2,
                ) + data@.subrange(pos + 2, end as int));
            }
            Ok((SizedString(s), end))
        },
        StringEncoding::Unicode => {
            if (n - (pos + 2)) / 2 < count {
                return Err(
                    Error::Parse {
                        offset: n as u64,
                        message: crate::text::short_input_message(),
                    },
                );
            }
            let end = pos + 2 + 2 * count;
            let units = read_units(data, pos + 2, count);
            let s = match utf16_decode(units.as_slice()) {
                Some(s) => s,
                None => {
                    return Err(
                        Error::Parse {
                            offset: end as u64,
                            message: crate::text::decode_message(),
                        },
                    );
                },
            };
            proof {
                lemma_enc_le16(data@, pos as int);
                lemma_units_at_bytes(data@, pos + 2, count as int);
                assert(data@.subrange(pos as int, end as int) =~= data@.subrange(
                    pos as int,
                    pos + 2,
                ) + data@.subrange(pos + 2, end as int));
            }
            Ok((SizedString(s), end))
        },
    }
}

/// Appends the wire form of `s` in `enc`. Fails, leaving the output
/// untouched, exactly when `s` has no wire form: a character outside
/// the code page, or a string too long for its 16-bit count.
pub fn write_sized_string(out: &mut Vec<u8>, s: &str, enc: StringEncoding) -> (r: Result<
    (),
    Error,
>)
    ensures
        (r is Ok) == (sized_string_bytes(s@, enc) is Some),
        match r {
            Ok(()) => Some(final(out)@) == match sized_string_bytes(s@, enc) {
                Some(b) => Some(old(out)@ + b),
                None => None,
            } && parse_sized_string(final(out)@, old(out)@.len() as int, enc)
                == crate::bytes::Decoded::Found(s@, final(out)@.len() as int),
            Err(e) => final(out)@ == old(out)@ && (e matches Error::Parse { .. }),
        },
{
    proof {
        reveal(parse_sized_string);
        reveal(sized_string_bytes);
    }
    match enc {
        StringEncoding::CodePage(cp) => {
            let mut b = match code_page_encode(cp, s) {
                Some(b) => b,
                None => {
                    return Err(
                        Error::Parse {
                            offset: out.len() as u64,
                            message: crate::text::encode_message(),
                        },
                    );
                },
            };
            if b.len() > 0xFFFF {
                return Err(
                    Error::Parse {
                        offset: out.len() as u64,
                        message: crate::text::string_length_message(),
                    },
                );
            }
            write_u16(out, b.len() as u16);
            let ghost bs = b@;
            out.append(&mut b);
            proof {
                assert(out@ =~= old(out)@ + (enc_u16(bs.len() as u16) + bs));
                let base = old(out)@.len() as int;
                lemma_le16_enc(bs.len() as u16);
                assert(out@[base + 0] == enc_u16(bs.len() as u16)[0] && out@[base + 1] == enc_u16(
                    bs.len() as u16,
                )[1]);
                assert(le16_at(out@, base) == bs.len());
                assert(out@.subrange(base + 2, base + 2 + bs.len()) =~= bs);
            }
            Ok(())
        },
        StringEncoding::Unicode => {
            let units = utf16_encode(s);
            if units.len() > 0xFFFF {
                return Err(
                    Error::Parse {
                        offset: out.len() as u64,
                        message: crate::text::string_length_message(),
                    },
                );
            }
            write_u16(out, units.len() as u16);
            write_units(out, &units);
            proof {
                assert(out@ =~= old(out)@ + (enc_u16(units@.len() as u16) + units_bytes(
                    units@,
                )));
                let base = old(out)@.len() as int;
                let count = units@.len() as int;
                lemma_le16_enc(units@.len() as u16);
                assert(out@[base + 0] == enc_u16(units@.len() as u16)[0] && out@[base + 1]
                    == enc_u16(units@.len() as u16)[1]);
                assert(le16_at(out@, base) == count);
                lemma_units_bytes_len(units@);
                lemma_units_bytes_at(units@);
                assert(units_at(out@, base + 2, count) =~= units@) by {
                    assert forall|k: int| 0 <= k < count implies units_at(out@, base + 2, count)[k]
                        == units@[k] by {
                        assert(out@[base + 2 + (2 * k)] == units_bytes(units@)[2 * k]);
                        assert(out@[base + 2 + (2 * k + 1)] == units_bytes(units@)[2 * k + 1]);
                        assert(le16_at(out@, base + 2 + 2 * k) == le16_at(units_bytes(units@), 2
                            * k));
                        assert(units_at(units_bytes(units@), 0, count)[k] == units@[k]);
                    }
                }
            }
            Ok(())
        },
    }
}

/// The position of the first zero byte at or after `i`, if any.
pub open spec fn find_zero_byte(s: Seq<u8>, i: int) -> Option<int>
    decreases s.len() - i,
{
    if i < 0 || i >= s.len() {
        None
    } else if s[i] == 0 {
        Some(i)
    } else {
        find_zero_byte(s, i + 1)
    }
}

/// The position of the first zero 16-bit unit at or after `i`, stepping
/// two bytes at a time, if any.
pub open spec fn find_zero_unit(s: Seq<u8>, i: int) -> Option<int>
    decreases s.len() - i,
{
    if i < 0 || i + 2 > s.len() {
        None
    } else if le16_at(s, i) == 0 {
        Some(i)
    } else {
        find_zero_unit(s, i + 2)
    }
}

/// Parses a NUL-terminated code-page string at `i`: bytes to the first
/// zero, which is consumed. An input with no zero fails at its end.
pub open spec fn parse_nul_ansi(cp: CodePage, s: Seq<u8>, i: int) -> crate::bytes::Decoded<
    Seq<char>,
> {
    match find_zero_byte(s, i) {
        Some(z) => crate::bytes::Decoded::Found(
            code_page_chars_of(cp, s.subrange(i, z)),
            z + 1,
        ),
        None => crate::bytes::Decoded::Fail(s.len() as int),
    }
}

/// Parses a NUL-terminated UTF-16 string at `i`: units to the first
/// zero unit, which is consumed. An input with no zero unit fails at
/// its end; invalid units fail just past the zero.
pub open spec fn parse_nul_unicode(s: Seq<u8>, i: int) -> crate::bytes::Decoded<Seq<char>> {
    match find_zero_unit(s, i) {
        Some(z) => match utf16_chars_of(units_at(s, i, (z - i) / 2)) {
            Some(cs) => crate::bytes::Decoded::Found(cs, z + 2),
            None => crate::bytes::Decoded::Fail(z + 2),
        },
        None => crate::bytes::Decoded::Fail(s.len() as int),
    }
}

/// A string of unknown length, ended on the wire by a NUL.
#[derive(Clone, Debug, PartialEq, Eq)]
pub struct NullTerminatedString(pub String);

impl NullTerminatedString {
    /// The held characters.
    pub fn as_str(&self) -> (r: &str)
        ensures
            r@ == self.0@,
    {
        self.0.as_str()
    }
}

/// Reads a NUL-terminated string at `pos` in the given encoding.
pub fn read_null_terminated_string(data: &[u8], pos: usize, enc: StringEncoding) -> (r: Result<
    (NullTerminatedString, usize),
    crate::Error,
>)
    requires
        pos <= data@.len(),
    ensures
        ({
            let p = match enc {
                StringEncoding::CodePage(cp) => parse_nul_ansi(cp, data@, pos as int),
                StringEncoding::Unicode => parse_nul_unicode(data@, pos as int),
            };
            match r {
                Ok((v, end)) => p == crate::bytes::Decoded::Found(v.0@, end as int) && pos < end
                    <= data@.len(),
                Err(e) => {
                    &&& p matches crate::bytes::Decoded::Fail(o)
                    &&& e matches crate::Error::Parse { offset, .. } && offset == o
                },
            }
        }),
{
    let n = data.len();
    match enc {
        StringEncoding::CodePage(cp) => {
            let mut cur: usize = pos;
            loop
                invariant
                    enc is CodePage,
                    pos <= cur <= n,
                    n == data@.len(),
                    find_zero_byte(data@, pos as int) == find_zero_byte(data@, cur as int),
                    forall|k: int| pos <= k < cur ==> data@[k] != 0,
                decreases n - cur,
            {
                if cur == n {
                    return Err(
                        crate::Error::Parse {
                            offset: n as u64,
                            message: crate::text::short_input_message(),
                        },
                    );
                }
                if data[cur] == 0 {
                    let b = copy_range(data, pos, cur);
                    let s = code_page_decode(cp, b.as_slice());
                    return Ok((NullTerminatedString(s), cur + 1));
                }
                cur = cur + 1;
            }
        },
        StringEncoding::Unicode => {
            let mut cur: usize = pos;
            loop
                invariant
                    enc is Unicode,
                    pos <= cur <= n,
                    n == data@.len(),
                    (cur - pos) % 2 == 0,
                    find_zero_unit(data@, pos as int) == find_zero_unit(data@, cur as int),
                decreases n - cur,
            {
                if n - cur < 2 {
                    return Err(
                        crate::Error::Parse {
                            offset: n as u64,
                            message: crate::text::short_input_message(),
                        },
                    );
                }
                if read_u16(data, cur) == 0 {
                    let count = (cur - pos) / 2;
                    let u = read_units(data, pos, count);
                    match utf16_decode(u.as_slice()) {
                        Some(s) => {
                            return Ok((NullTerminatedString(s), cur + 2));
                        },
                        None => {
                            return Err(
                                crate::Error::Parse {
                                    offset: (cur + 2) as u64,
                                    message: crate::text::decode_message(),
                                },
                            );
                        },
                    }
                }
                cur = cur + 2;
            }
        },
    }
}

/// The index of the first NUL character, if there is one.
pub open spec fn find_nul(s: Seq<char>) -> Option<int>
    decreases s.len(),
{
    if s.len() == 0 {
        None
    } else if s[0] == '\0' {
        Some(0)
    } else {
        match find_nul(s.drop_first()) {
            Some(i) => Some(i + 1),
            None => None,
        }
    }
}

/// What trimming a string at its first NUL leaves: the part before the
/// first NUL, or, in a string with no NUL at all, nothing.
pub open spec fn spec_trim_nul(s: Seq<char>) -> Seq<char> {
    match find_nul(s) {
        Some(i) => s.subrange(0, i),
        None => Seq::empty(),
    }
}

/// The position `find_nul` finds holds a NUL and nothing before it does.
pub proof fn lemma_find_nul(s: Seq<char>)
    ensures
        match find_nul(s) {
            Some(i) => 0 <= i < s.len() && s[i] == '\0' && forall|k: int|
                0 <= k < i ==> s[k] != '\0',
            None => forall|k: int| 0 <= k < s.len() ==> s[k] != '\0',
        },
    decreases s.len(),
{
    if s.len() > 0 && s[0] != '\0' {
        lemma_find_nul(s.drop_first());
        let t = s.drop_first();
        match find_nul(t) {
            Some(i) => {
                assert(s[i + 1] == t[i]);
                assert forall|k: int| 0 <= k < i + 1 implies s[k] != '\0' by {
                    if k > 0 {
                        assert(t[k - 1] != '\0');
                    }
                }
            },
            None => {
                assert forall|k: int| 0 <= k < s.len() implies s[k] != '\0' by {
                    if k > 0 {
                        assert(t[k - 1] != '\0');
                    }
                }
            },
        }
    }
}

/// Cuts a string at its first NUL character; a string with no NUL at
/// all is cut to nothing.
pub fn trim_nul_terminated_string(s: &str) -> (r: String)
    ensures
        r@ == spec_trim_nul(s@),
{
    let len = s.unicode_len();
    let mut i: usize = 0;
    proof {
        lemma_find_nul(s@);
    }
    while i < len
        invariant
            i <= len == s@.len(),
            forall|k: int| 0 <= k < i ==> s@[k] != '\0',
            match find_nul(s@) {
                Some(j) => 0 <= j < s@.len() && s@[j] == '\0' && forall|k: int|
                    0 <= k < j ==> s@[k] != '\0',
                None => forall|k: int| 0 <= k < s@.len() ==> s@[k] != '\0',
            },
        decreases len - i,
    {
        if s.get_char(i) == '\0' {
            proof {
                match find_nul(s@) {
                    Some(j) => {
                        assert(j == i) by {
                            if j < i {
                                assert(s@[j] == '\0');
                            }
                        }
                    },
                    None => {
                        assert(s@[i as int] != '\0');
                    },
                }
            }
            let r = s.substring_char(0, i);
            proof {
                assert(r@ =~= spec_trim_nul(s@));
            }
            return r.to_owned();
        }
        i = i + 1;
    }
    proof {
        match find_nul(s@) {
            Some(j) => {
                assert(s@[j] == '\0');
            },
            None => {},
        }
        assert(spec_trim_nul(s@) =~= Seq::<char>::empty());
    }
    String::new()
}

} // verus!
