use vstd::prelude::*;
use vstd::utf8::*;
use vstd::string::StringSliceAdditionalSpecFns;

verus! {

broadcast use vstd::string::group_string_axioms;

/// The characters that may not stand in a file name: `> < : ? * / \ | "`.
pub open spec fn is_forbidden(c: char) -> bool {
    c == '>' || c == '<' || c == ':' || c == '?' || c == '*' || c == '/' || c == '\\'
        || c == '|' || c == '"'
}

/// `c`, or `_` where `c` may not stand in a file name.
pub open spec fn safe_char(c: char) -> char {
    if is_forbidden(c) {
        '_'
    } else {
        c
    }
}

/// `key` with every character that may not stand in a file name replaced by `_`.
pub open spec fn sanitized(key: Seq<char>) -> Seq<char> {
    key.map_values(|c: char| safe_char(c))
}

/// Calls `String::push`, which appends `c` to `s`.
#[verifier::external_body]
fn push_char(s: &mut String, c: char)
    ensures
        final(s)@ == old(s)@.push(c),
{
    s.push(c);
}

/// Whether `c` may not stand in a file name.
pub fn forbidden_in_file_name(c: char) -> (r: bool)
    ensures
        r == is_forbidden(c),
{
    c == '>' || c == '<' || c == ':' || c == '?' || c == '*' || c == '/' || c == '\\' || c
        == '|' || c == '"'
}

/// The file name under which lines filed under `key` are written: `key` with
/// each of `> < : ? * / \ | "` replaced by `_`.
pub fn sanitize_file_name(key: &str) -> (r: String)
    ensures
        r@ == sanitized(key@),
{
    let mut r = String::new();
    for c in it: key.chars()
        invariant
            r@ == sanitized(it.seq().take(it.index() as int)),
    {
        assert(it.seq().take(it.index() + 1) =~= it.seq().take(it.index() as int).push(c));
        if forbidden_in_file_name(c) {
            push_char(&mut r, '_');
        } else {
            push_char(&mut r, c);
        }
    }
    r
}

/// A sanitized name has as many characters as its key, none of them one that
/// may not stand in a file name, and every other character of the key in its
/// place.
pub proof fn lemma_sanitized_is_safe(key: Seq<char>)
    ensures
        sanitized(key).len() == key.len(),
        forall|i: int| 0 <= i < key.len() ==> !is_forbidden(#[trigger] sanitized(key)[i]),
        forall|i: int|
            0 <= i < key.len() && !is_forbidden(key[i]) ==> #[trigger] sanitized(key)[i] == key[i],
{
}

/// Sanitizing a sanitized name changes nothing.
pub proof fn lemma_sanitize_idempotent(key: Seq<char>)
    ensures
        sanitized(sanitized(key)) == sanitized(key),
{
    assert(sanitized(sanitized(key)) =~= sanitized(key));
}

/// The longest stem, in bytes, of a per-key file name, so that the stem and
/// `.log` fit a file name of 255 bytes.
pub const MAX_STEM_BYTES: usize = 251;

/// The stem that `cap` leaves for a file name: `cap` itself where its UTF-8
/// encoding fits `MAX_STEM_BYTES`, else the characters of its first
/// `MAX_STEM_BYTES` bytes.
pub open spec fn stem_of(cap: Seq<char>) -> Seq<char> {
    if encode_utf8(cap).len() <= MAX_STEM_BYTES {
        cap
    } else {
        decode_utf8(encode_utf8(cap).take(MAX_STEM_BYTES as int))
    }
}

/// Whether the stem of `cap` can be cut at a character boundary: true unless
/// `cap` is longer than `MAX_STEM_BYTES` bytes and its byte `MAX_STEM_BYTES`
/// lies inside a character.
pub open spec fn stem_cuttable(cap: Seq<char>) -> bool {
    encode_utf8(cap).len() <= MAX_STEM_BYTES || is_char_boundary(
        encode_utf8(cap),
        MAX_STEM_BYTES as int,
    )
}

/// The UTF-8 encoding of a concatenation is the concatenation of encodings.
pub proof fn lemma_encode_concat(a: Seq<char>, b: Seq<char>)
    ensures
        encode_utf8(a + b) == encode_utf8(a) + encode_utf8(b),
    decreases a.len(),
{
    if a.len() == 0 {
        assert(a + b =~= b);
    } else {
        assert((a + b).drop_first() =~= a.drop_first() + b);
        lemma_encode_concat(a.drop_first(), b);
        assert(encode_utf8(a + b) =~= encode_scalar(a[0] as u32) + (encode_utf8(a.drop_first())
            + encode_utf8(b)));
    }
}

/// The file key of a captured text: the stem of `cap` followed by `.log`;
/// `None` where the stem would have to be cut inside a character.
pub fn log_file_key(cap: &str) -> (r: Option<String>)
    ensures
        r is Some <==> stem_cuttable(cap@),
        r matches Some(k) ==> k@ == stem_of(cap@) + ".log"@,
        r matches Some(k) ==> encode_utf8(k@).len() <= MAX_STEM_BYTES + 4,
{
    let n = cap.as_bytes().len();
    let mut stem;
    if n > MAX_STEM_BYTES {
        if !cap.is_char_boundary(MAX_STEM_BYTES) {
            return None;
        }
        let (head, _tail) = cap.split_at(MAX_STEM_BYTES);
        proof {
            encode_utf8_decode_utf8(head@);
        }
        stem = head.to_owned();
        assert(encode_utf8(stem@) == head.spec_bytes());
        assert(encode_utf8(stem@).len() == MAX_STEM_BYTES);
    } else {
        stem = cap.to_owned();
        assert(encode_utf8(stem@) == cap.spec_bytes());
    }
    stem.append(".log");
    proof {
        reveal_strlit(".log");
        lemma_encode_concat(stem_of(cap@), ".log"@);
        is_ascii_chars_encode_utf8(".log"@);
    }
    Some(stem)
}

} // verus!
