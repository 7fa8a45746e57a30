//! The textual form of binary results: unpadded URL-safe base64, read back
//! with surrounding whitespace ignored.
use crate::error::TextError;
use crate::format::Base64Format;
use crate::primitives::{
    ascii_bytes, base64_decode, base64_encode, base64_standard_decode,
    base64_standard_decode_bytes, base64_standard_encode, base64_standard_encode_bytes,
    base64_url_decode, base64_url_encode, is_standard_symbol, is_url_safe_symbol,
};
use vstd::prelude::*;
use vstd::utf8::{encode_utf8, is_ascii_chars, is_ascii_chars_encode_utf8};

verus! {

/// ASCII whitespace: space, tab, line feed, vertical tab, form feed or
/// carriage return.
pub open spec fn is_blank(b: u8) -> bool {
    b == 32 || b == 9 || b == 10 || b == 11 || b == 12 || b == 13
}

/// `s` without its leading blanks.
pub open spec fn trim_start(s: Seq<u8>) -> Seq<u8>
    decreases s.len(),
{
    if s.len() > 0 && is_blank(s[0]) {
        trim_start(s.drop_first())
    } else {
        s
    }
}

/// `s` without its trailing blanks.
pub open spec fn trim_end(s: Seq<u8>) -> Seq<u8>
    decreases s.len(),
{
    if s.len() > 0 && is_blank(s.last()) {
        trim_end(s.drop_last())
    } else {
        s
    }
}

/// `s` without surrounding blanks.
pub open spec fn trim(s: Seq<u8>) -> Seq<u8> {
    trim_end(trim_start(s))
}

/// What a stored text decodes to: its trimmed content read as unpadded
/// URL-safe base64, or a format error.
pub open spec fn decoded_text(text: Seq<u8>) -> Result<Seq<u8>, TextError> {
    match base64_url_decode(trim(text)) {
        Some(v) => Ok(v),
        None => Err(TextError::Format),
    }
}

/// Whether an executable result holds the bytes of a spec result.
pub open spec fn same_bytes(r: Result<Vec<u8>, TextError>, s: Result<Seq<u8>, TextError>) -> bool {
    match r {
        Ok(v) => s == Ok::<Seq<u8>, TextError>(v@),
        Err(e) => s == Err::<Seq<u8>, TextError>(e),
    }
}

/// A text with no blank byte has nothing to trim.
pub proof fn lemma_trim_symbols(s: Seq<u8>)
    requires
        forall|i: int| 0 <= i < s.len() ==> !is_blank(#[trigger] s[i]),
    ensures
        trim(s) == s,
{
    if s.len() > 0 {
        assert(!is_blank(s[0]));
        assert(!is_blank(s[s.len() - 1]));
    }
}

/// Index of the first byte of `text` that is not blank, or `text.len()`.
fn skip_blanks(text: &[u8]) -> (r: usize)
    ensures
        r <= text@.len(),
        trim_start(text@) == text@.subrange(r as int, text@.len() as int),
{
    let n = text.len();
    let mut i: usize = 0;
    assert(text@.subrange(0, n as int) =~= text@);
    while i < n && (text[i] == 32 || text[i] == 9 || text[i] == 10 || text[i] == 11 || text[i]
        == 12 || text[i] == 13)
        invariant
            i <= n,
            n == text@.len(),
            trim_start(text@) == trim_start(text@.subrange(i as int, n as int)),
        decreases n - i,
    {
        let ghost rest = text@.subrange(i as int, n as int);
        assert(rest.drop_first() =~= text@.subrange(i + 1, n as int));
        i = i + 1;
    }
    i
}

/// Index just past the last byte of `text[start..]` that is not blank.
fn drop_blanks(text: &[u8], start: usize) -> (r: usize)
    requires
        start <= text@.len(),
    ensures
        start <= r <= text@.len(),
        trim_end(text@.subrange(start as int, text@.len() as int)) == text@.subrange(
            start as int,
            r as int,
        ),
{
    let n = text.len();
    let mut j: usize = n;
    while j > start && (text[j - 1] == 32 || text[j - 1] == 9 || text[j - 1] == 10 || text[j - 1]
        == 11 || text[j - 1] == 12 || text[j - 1] == 13)
        invariant
            start <= j <= n,
            n == text@.len(),
            trim_end(text@.subrange(start as int, n as int)) == trim_end(
                text@.subrange(start as int, j as int),
            ),
        decreases j,
    {
        let ghost rest = text@.subrange(start as int, j as int);
        assert(rest.drop_last() =~= text@.subrange(start as int, j - 1));
        j = j - 1;
    }
    j
}

/// Whether every byte of `s` is blank.
pub open spec fn all_blank(s: Seq<u8>) -> bool {
    forall|i: int| 0 <= i < s.len() ==> is_blank(#[trigger] s[i])
}

/// Leading blanks do not change what remains after trimming the start.
proof fn lemma_trim_start_blank_prefix(a: Seq<u8>, y: Seq<u8>)
    requires
        all_blank(a),
    ensures
        trim_start(a + y) == trim_start(y),
    decreases a.len(),
{
    if a.len() > 0 {
        assert((a + y)[0] == a[0]);
        assert((a + y).drop_first() =~= a.drop_first() + y);
        assert(all_blank(a.drop_first())) by {
            assert forall|i: int| 0 <= i < a.drop_first().len() implies is_blank(
                #[trigger] a.drop_first()[i],
            ) by {
                assert(a.drop_first()[i] == a[i + 1]);
            }
        }
        lemma_trim_start_blank_prefix(a.drop_first(), y);
    } else {
        assert(a + y =~= y);
    }
}

/// Trailing blanks do not change what remains after trimming the end.
proof fn lemma_trim_end_blank_suffix(y: Seq<u8>, b: Seq<u8>)
    requires
        all_blank(b),
    ensures
        trim_end(y + b) == trim_end(y),
    decreases b.len(),
{
    if b.len() > 0 {
        assert((y + b).last() == b.last());
        assert((y + b).drop_last() =~= y + b.drop_last());
        assert(all_blank(b.drop_last())) by {
            assert forall|i: int| 0 <= i < b.drop_last().len() implies is_blank(
                #[trigger] b.drop_last()[i],
            ) by {
                assert(b.drop_last()[i] == b[i]);
            }
        }
        lemma_trim_end_blank_suffix(y, b.drop_last());
    } else {
        assert(y + b =~= y);
    }
}

/// Trimming a text with no blank byte, surrounded by blanks, gives the text.
pub proof fn lemma_trim_padded(a: Seq<u8>, x: Seq<u8>, b: Seq<u8>)
    requires
        all_blank(a),
        all_blank(b),
        forall|i: int| 0 <= i < x.len() ==> !is_blank(#[trigger] x[i]),
    ensures
        trim(a + x + b) == x,
{
    assert(a + x + b =~= a + (x + b));
    lemma_trim_start_blank_prefix(a, x + b);
    if x.len() > 0 {
        assert((x + b)[0] == x[0]);
        assert(!is_blank(x[0]));
        lemma_trim_end_blank_suffix(x, b);
        assert(!is_blank(x[x.len() - 1]));
    } else {
        assert(x + b =~= b);
        lemma_trim_start_blank_prefix(b, Seq::<u8>::empty());
        assert(b + Seq::<u8>::empty() =~= b);
    }
}

/// The unpadded URL-safe base64 text of `data`: ASCII, four characters for
/// every three bytes rounded up, each byte of its UTF-8 form a symbol of the
/// URL-safe alphabet. Read back, alone or with surrounding blanks, it gives
/// `data` again.
pub fn encode_text(data: &[u8]) -> (r: String)
    ensures
        r@ == base64_url_encode(data@),
        r@.len() == (4 * data@.len() + 2) / 3,
        is_ascii_chars(r@),
        encode_utf8(r@).len() == r@.len(),
        forall|i: int|
            0 <= i < encode_utf8(r@).len() ==> is_url_safe_symbol(#[trigger] encode_utf8(r@)[i]),
        decoded_text(encode_utf8(r@)) == Ok::<Seq<u8>, TextError>(data@),
        forall|a: Seq<u8>, b: Seq<u8>|
            all_blank(a) && all_blank(b) ==> #[trigger] decoded_text(a + encode_utf8(r@) + b)
                == Ok::<Seq<u8>, TextError>(data@),
{
    let r = base64_encode(data);
    proof {
        let b = ascii_bytes(r@);
        is_ascii_chars_encode_utf8(r@);
        assert(encode_utf8(r@) =~= b);
        assert forall|i: int| 0 <= i < b.len() implies !is_blank(#[trigger] b[i]) by {
            assert(is_url_safe_symbol(r@[i] as u8));
        }
        assert forall|i: int| 0 <= i < b.len() implies is_url_safe_symbol(#[trigger] b[i]) by {
            assert(is_url_safe_symbol(r@[i] as u8));
        }
        lemma_trim_symbols(b);
        assert forall|x: Seq<u8>, y: Seq<u8>|
            all_blank(x) && all_blank(y) implies #[trigger] decoded_text(x + encode_utf8(r@) + y)
            == Ok::<Seq<u8>, TextError>(data@) by {
            lemma_trim_padded(x, b, y);
        }
    }
    r
}

/// What `process_decode` gives for `text` in the alphabet `format`.
pub open spec fn decoded_in(text: Seq<u8>, format: Base64Format) -> Result<Seq<u8>, TextError> {
    match format {
        Base64Format::Standard => match base64_standard_decode(trim(text)) {
            Some(v) => Ok(v),
            None => Err(TextError::Format),
        },
        Base64Format::UrlSafe => decoded_text(text),
    }
}

/// A byte that may stand in base64 text of the alphabet `format`.
pub open spec fn is_symbol_of(b: u8, format: Base64Format) -> bool {
    match format {
        Base64Format::Standard => is_standard_symbol(b),
        Base64Format::UrlSafe => is_url_safe_symbol(b),
    }
}

/// The base64 text of `data` in the alphabet `format`: padded standard, or
/// unpadded URL-safe. It is ASCII, uses only that alphabet, and decodes back
/// to `data`.
pub fn process_encode(data: &[u8], format: Base64Format) -> (r: String)
    ensures
        r@ == match format {
            Base64Format::Standard => base64_standard_encode(data@),
            Base64Format::UrlSafe => base64_url_encode(data@),
        },
        is_ascii_chars(r@),
        forall|i: int|
            0 <= i < encode_utf8(r@).len() ==> is_symbol_of(#[trigger] encode_utf8(r@)[i], format),
        decoded_in(encode_utf8(r@), format) == Ok::<Seq<u8>, TextError>(data@),
{
    match format {
        Base64Format::Standard => {
            let r = base64_standard_encode_bytes(data);
            proof {
                let b = ascii_bytes(r@);
                is_ascii_chars_encode_utf8(r@);
                assert(encode_utf8(r@) =~= b);
                assert forall|i: int| 0 <= i < b.len() implies is_standard_symbol(
                    #[trigger] b[i],
                ) by {
                    assert(is_standard_symbol(r@[i] as u8));
                }
                assert forall|i: int| 0 <= i < b.len() implies !is_blank(#[trigger] b[i]) by {
                    assert(is_standard_symbol(r@[i] as u8));
                }
                lemma_trim_symbols(b);
            }
            r
        },
        Base64Format::UrlSafe => encode_text(data),
    }
}

/// The bytes that the base64 text `text` in the alphabet `format` stands
/// for, surrounding blanks ignored; a format error where it is not such text,
/// in particular where it holds a byte outside the alphabet.
pub fn process_decode(text: &[u8], format: Base64Format) -> (r: Result<Vec<u8>, TextError>)
    ensures
        same_bytes(r, decoded_in(text@, format)),
        (exists|i: int|
            0 <= i < trim(text@).len() && !is_symbol_of(#[trigger] trim(text@)[i], format)) ==> r
            == Err::<Vec<u8>, TextError>(TextError::Format),
{
    match format {
        Base64Format::Standard => {
            let start = skip_blanks(text);
            let end = drop_blanks(text, start);
            let body = &text[start..end];
            assert(body@ == trim(text@));
            match base64_standard_decode_bytes(body) {
                Some(v) => Ok(v),
                None => Err(TextError::Format),
            }
        },
        Base64Format::UrlSafe => decode_text(text),
    }
}

/// The bytes that a stored text stands for: surrounding blanks are ignored
/// and the rest must be unpadded URL-safe base64. Any byte outside that
/// alphabet gives a format error.
pub fn decode_text(text: &[u8]) -> (r: Result<Vec<u8>, TextError>)
    ensures
        same_bytes(r, decoded_text(text@)),
        (exists|i: int| 0 <= i < trim(text@).len() && !is_url_safe_symbol(#[trigger] trim(text@)[i]))
            ==> r == Err::<Vec<u8>, TextError>(TextError::Format),
{
    let start = skip_blanks(text);
    let end = drop_blanks(text, start);
    let body = &text[start..end];
    assert(body@ == trim(text@));
    match base64_decode(body) {
        Some(v) => Ok(v),
        None => Err(TextError::Format),
    }
}

} // verus!
