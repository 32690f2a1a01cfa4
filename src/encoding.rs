use crate::text::{chars_of, push_all, string_of};
use base64::engine::general_purpose;
use base64::Engine;
use vstd::prelude::*;

verus! {

/// The standard, padded base64 text of `b`.
pub uninterp spec fn base64_of(b: Seq<u8>) -> Seq<char>;

/// The bytes whose standard, padded base64 text is `s`, if `s` is such a text.
pub uninterp spec fn base64_decoded(s: Seq<char>) -> Option<Seq<u8>>;

/// A symbol of the standard base64 alphabet, or the padding sign.
pub open spec fn is_base64_symbol(c: char) -> bool {
    ('A' <= c && c <= 'Z') || ('a' <= c && c <= 'z') || ('0' <= c && c <= '9') || c == '+'
        || c == '/' || c == '='
}

/// Every character of `s` is a base64 symbol or the padding sign.
pub open spec fn is_base64_text(s: Seq<char>) -> bool {
    forall|i: int| 0 <= i < s.len() ==> #[trigger] is_base64_symbol(s[i])
}

/// What stands before the base64 text in a PNG data URL.
pub open spec fn png_prefix() -> Seq<char> {
    "data:image/png;base64,"@
}

/// `s` with every occurrence of `p`, from index `i` on, taken out, as
/// `str::replace` with an empty replacement does it: the leftmost occurrence
/// first, and none that overlaps one already taken out.
pub open spec fn remove_from(s: Seq<char>, p: Seq<char>, i: int) -> Seq<char>
    decreases s.len() - i,
{
    if i < 0 || i >= s.len() {
        Seq::empty()
    } else if p.len() > 0 && i + p.len() <= s.len() && s.subrange(i, i + p.len()) == p {
        remove_from(s, p, i + p.len())
    } else {
        seq![s[i]] + remove_from(s, p, i + 1)
    }
}

/// `s` with every occurrence of `p` taken out.
pub open spec fn remove_all(s: Seq<char>, p: Seq<char>) -> Seq<char> {
    remove_from(s, p, 0)
}

/// Relies on base64's `general_purpose::STANDARD` engine and its `encode`: the
/// result depends on the bytes alone, and is written in the standard alphabet
/// of RFC 4648 (`A-Z`, `a-z`, `0-9`, `+`, `/`) with `=` as padding. It panics
/// only where the length of the text would overflow `usize`.
#[verifier::external_body]
fn encode_standard(b: &[u8]) -> (r: String)
    requires
        b@.len() <= usize::MAX / 2,
    ensures
        r@ == base64_of(b@),
        is_base64_text(r@),
{
    general_purpose::STANDARD.encode(b)
}

/// Relies on base64's `general_purpose::STANDARD` engine and its `decode`: it
/// fails exactly where the text is no standard base64, its bytes depend on
/// the text alone, and the text that `encode` gives decodes to the bytes it
/// came from.
#[verifier::external_body]
fn decode_standard(s: &str) -> (r: Result<Vec<u8>, String>)
    ensures
        r matches Ok(v) ==> base64_decoded(s@) == Some(v@),
        r is Err ==> base64_decoded(s@) is None,
        r matches Ok(v) ==> (forall|b: Seq<u8>| #[trigger] base64_of(b) == s@ ==> v@ == b),
        r is Err ==> (forall|b: Seq<u8>| #[trigger] base64_of(b) != s@),
{
    match general_purpose::STANDARD.decode(s) {
        Ok(v) => Ok(v),
        Err(e) => Err(e.to_string()),
    }
}

/// A PNG data URL around base64 text already encoded.
pub fn png_data_url_from_encoded(encoded: &str) -> (r: String)
    ensures
        r@ == png_prefix() + encoded@,
{
    let mut v = chars_of("data:image/png;base64,");
    push_all(&mut v, &chars_of(encoded));
    string_of(&v)
}

/// A PNG data URL that carries the bytes of an image.
pub fn png_data_url(bytes: &[u8]) -> (r: String)
    requires
        bytes@.len() <= usize::MAX / 2,
    ensures
        r@ == png_prefix() + base64_of(bytes@),
        is_base64_text(base64_of(bytes@)),
{
    let encoded = encode_standard(bytes);
    png_data_url_from_encoded(encoded.as_str())
}

/// Whether `p` occurs in `v` at index `i`.
fn occurs_at(v: &Vec<char>, p: &Vec<char>, i: usize) -> (r: bool)
    requires
        i <= v@.len(),
    ensures
        r == (i + p@.len() <= v@.len() && v@.subrange(i as int, i + p@.len()) == p@),
{
    if p.len() > v.len() - i {
        return false;
    }
    let n = v.len();
    let mut k: usize = 0;
    while k < p.len()
        invariant
            k <= p@.len(),
            n == v@.len(),
            i <= v@.len(),
            p@.len() <= v@.len() - i,
            forall|j: int| 0 <= j < k ==> v@[i + j] == p@[j],
        decreases p@.len() - k,
    {
        if v[i + k] != p[k] {
            assert(v@.subrange(i as int, i + p@.len())[k as int] != p@[k as int]);
            return false;
        }
        k = k + 1;
    }
    assert(v@.subrange(i as int, i + p@.len()) =~= p@);
    true
}

/// `s` with every occurrence of `pattern` taken out, as `str::replace` with an
/// empty replacement does it.
pub fn remove_occurrences(s: &str, pattern: &str) -> (r: String)
    ensures
        r@ == remove_all(s@, pattern@),
{
    let v = chars_of(s);
    let p = chars_of(pattern);
    let mut out: Vec<char> = Vec::new();
    let mut i: usize = 0;
    while i < v.len()
        invariant
            i <= v@.len(),
            out@ + remove_from(v@, p@, i as int) == remove_from(v@, p@, 0),
        decreases v@.len() - i,
    {
        if p.len() > 0 && occurs_at(&v, &p, i) {
            i = i + p.len();
        } else {
            let ghost before = out@;
            out.push(v[i]);
            assert(out@ + remove_from(v@, p@, i + 1) =~= before + (seq![v@[i as int]]
                + remove_from(v@, p@, i + 1)));
            i = i + 1;
        }
    }
    assert(out@ + remove_from(v@, p@, i as int) =~= out@);
    string_of(&out)
}

/// Past the prefix, base64 text holds no further occurrence of the prefix, for
/// the prefix holds a colon and base64 text none.
proof fn lemma_remove_prefix_tail(enc: Seq<char>, i: int)
    requires
        is_base64_text(enc),
        png_prefix().len() <= i <= png_prefix().len() + enc.len(),
    ensures
        remove_from(png_prefix() + enc, png_prefix(), i) == (png_prefix() + enc).subrange(
            i,
            (png_prefix().len() + enc.len()) as int,
        ),
    decreases png_prefix().len() + enc.len() - i,
{
    let s = png_prefix() + enc;
    let p = png_prefix();
    reveal_strlit("data:image/png;base64,");
    if i < s.len() {
        if i + p.len() <= s.len() {
            let k = i + 4 - p.len();
            assert(is_base64_symbol(enc[k]));
            assert(s.subrange(i, i + p.len())[4] == s[i + 4]);
            assert(s.subrange(i, i + p.len()) != p);
        }
        lemma_remove_prefix_tail(enc, i + 1);
        assert(s.subrange(i, s.len() as int) =~= seq![s[i]] + s.subrange(i + 1, s.len() as int));
    } else {
        assert(s.subrange(i, s.len() as int) =~= Seq::<char>::empty());
    }
}

/// Taking the prefix out of a data URL around base64 text leaves that text.
proof fn lemma_remove_prefix(enc: Seq<char>)
    requires
        is_base64_text(enc),
    ensures
        remove_all(png_prefix() + enc, png_prefix()) == enc,
{
    let s = png_prefix() + enc;
    reveal_strlit("data:image/png;base64,");
    assert(s.subrange(0, png_prefix().len() as int) =~= png_prefix());
    lemma_remove_prefix_tail(enc, png_prefix().len() as int);
    assert(s.subrange(png_prefix().len() as int, s.len() as int) =~= enc);
}

/// The bytes that a PNG data URL carries: the data URL prefix is taken out
/// wherever it occurs, and the rest is read as base64. A data URL made by
/// `png_data_url` gives back the bytes it was made from.
pub fn decode_png_payload(image_b64: &str) -> (r: Result<Vec<u8>, String>)
    ensures
        r matches Ok(v) ==> base64_decoded(remove_all(image_b64@, png_prefix())) == Some(v@),
        r is Err ==> base64_decoded(remove_all(image_b64@, png_prefix())) is None,
        forall|b: Seq<u8>|
            image_b64@ == png_prefix() + #[trigger] base64_of(b) && is_base64_text(base64_of(b))
                ==> (r matches Ok(v) && v@ == b),
{
    proof {
        assert forall|b: Seq<u8>|
            image_b64@ == png_prefix() + #[trigger] base64_of(b) && is_base64_text(
                base64_of(b),
            ) implies remove_all(image_b64@, png_prefix()) == base64_of(b) by {
            lemma_remove_prefix(base64_of(b));
        }
    }
    let payload = remove_occurrences(image_b64, "data:image/png;base64,");
    decode_standard(payload.as_str())
}

} // verus!
