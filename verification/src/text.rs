//! Text: searching, trimming, decimal numbers and short fingerprints.
use vstd::prelude::*;
use vstd::string::*;
use vstd::utf8::*;

verus! {

/// `part` occurs in `text`.
pub open spec fn has_part(text: Seq<char>, part: Seq<char>) -> bool {
    exists|i: int|
        0 <= i <= text.len() - part.len() && #[trigger] text.subrange(i, i + part.len()) == part
}

/// Calls `str::contains` with a string as the pattern: the result says whether the pattern is a
/// part of the text.
#[verifier::external_body]
pub(crate) fn contains(text: &str, part: &str) -> (r: bool)
    ensures
        r == has_part(text@, part@),
{
    text.contains(part)
}

/// The characters with the Unicode property `White_Space`.
pub open spec fn is_white_space(c: char) -> bool {
    let u = c as u32;
    ||| 0x9 <= u <= 0xd
    ||| u == 0x20
    ||| u == 0x85
    ||| u == 0xa0
    ||| u == 0x1680
    ||| 0x2000 <= u <= 0x200a
    ||| 0x2028 <= u <= 0x2029
    ||| u == 0x202f
    ||| u == 0x205f
    ||| u == 0x3000
}

/// `text` without the white space at its ends.
pub open spec fn trimmed(text: Seq<char>) -> Seq<char>
    decreases text.len(),
{
    if text.len() > 0 && is_white_space(text.first()) {
        trimmed(text.drop_first())
    } else if text.len() > 0 && is_white_space(text.last()) {
        trimmed(text.drop_last())
    } else {
        text
    }
}

/// Calls `str::trim`, which removes leading and trailing white space, as Unicode defines it, and
/// nothing else.
#[verifier::external_body]
pub(crate) fn trim(text: &str) -> (r: &str)
    ensures
        r@ == trimmed(text@),
{
    text.trim()
}

/// What trimming leaves has no white space at its ends.
pub proof fn trimmed_has_no_outer_white_space(text: Seq<char>)
    ensures
        trimmed(text).len() > 0 ==> !is_white_space(trimmed(text).first()) && !is_white_space(
            trimmed(text).last(),
        ),
    decreases text.len(),
{
    if text.len() > 0 && is_white_space(text.first()) {
        trimmed_has_no_outer_white_space(text.drop_first());
    } else if text.len() > 0 && is_white_space(text.last()) {
        trimmed_has_no_outer_white_space(text.drop_last());
    }
}

/// Trimming twice is trimming once.
pub proof fn trimming_is_idempotent(text: Seq<char>)
    ensures
        trimmed(trimmed(text)) == trimmed(text),
{
    trimmed_has_no_outer_white_space(text);
}

/// An optional text after trimming, where a blank text counts as none.
pub open spec fn nonblank(text: Option<Seq<char>>) -> Option<Seq<char>> {
    match text {
        Some(t) => if trimmed(t).len() == 0 {
            None
        } else {
            Some(trimmed(t))
        },
        None => None,
    }
}

/// Finds where the trimmed text begins and ends.
proof fn lemma_trimmed_range(text: Seq<char>) -> (r: (int, int))
    ensures
        0 <= r.0 <= r.1 <= text.len(),
        trimmed(text) == text.subrange(r.0, r.1),
        forall|k: int| 0 <= k < r.0 ==> is_white_space(#[trigger] text[k]),
        forall|k: int| r.1 <= k < text.len() ==> is_white_space(#[trigger] text[k]),
    decreases text.len(),
{
    if text.len() > 0 && is_white_space(text.first()) {
        let rest = text.drop_first();
        let (i, j) = lemma_trimmed_range(rest);
        assert(text.subrange(i + 1, j + 1) =~= rest.subrange(i, j));
        assert forall|k: int| 0 <= k < i + 1 implies is_white_space(#[trigger] text[k]) by {
            if k > 0 {
                assert(text[k] == rest[k - 1]);
            }
        }
        assert forall|k: int| j + 1 <= k < text.len() implies is_white_space(
            #[trigger] text[k],
        ) by {
            assert(text[k] == rest[k - 1]);
        }
        (i + 1, j + 1)
    } else if text.len() > 0 && is_white_space(text.last()) {
        let rest = text.drop_last();
        let (i, j) = lemma_trimmed_range(rest);
        assert(text.subrange(i, j) =~= rest.subrange(i, j));
        assert forall|k: int| 0 <= k < i implies is_white_space(#[trigger] text[k]) by {
            assert(text[k] == rest[k]);
        }
        assert forall|k: int| j <= k < text.len() implies is_white_space(#[trigger] text[k]) by {
            if k < rest.len() {
                assert(text[k] == rest[k]);
            }
        }
        (i, j)
    } else {
        assert(text.subrange(0, text.len() as int) =~= text);
        (0, text.len() as int)
    }
}

/// Trimming takes white space from both ends and nothing else.
pub proof fn trimming_removes_only_outer_white_space(text: Seq<char>)
    ensures
        exists|i: int, j: int|
            0 <= i <= j <= text.len() && trimmed(text) == #[trigger] text.subrange(i, j) && (forall|
                k: int,
            |
                0 <= k < i || j <= k < text.len() ==> is_white_space(#[trigger] text[k])),
{
    let (i, j) = lemma_trimmed_range(text);
    assert(trimmed(text) == text.subrange(i, j));
}

/// Preparing a text trims it; what is left is none exactly if the text was all white space.
pub proof fn preparing_a_text_trims_it(text: Seq<char>)
    ensures
        nonblank(Some(text)) is None <==> forall|k: int|
            0 <= k < text.len() ==> is_white_space(#[trigger] text[k]),
        nonblank(Some(text)) is Some ==> nonblank(Some(text)) == Some(trimmed(text)),
        nonblank(None) is None,
{
    let (i, j) = lemma_trimmed_range(text);
    trimmed_has_no_outer_white_space(text);
    if i < j {
        assert(trimmed(text).first() == text[i]);
    }
}

/// Trims an optional text; a blank one becomes none.
pub fn nonblank_text(text: Option<String>) -> (r: Option<String>)
    ensures
        r.deep_view() == nonblank(text.deep_view()),
        text is None ==> r is None,
        text is Some ==> (r is None <==> trimmed(text->0@).len() == 0),
        text is Some && r is Some ==> r->0@ == trimmed(text->0@),
{
    match text {
        Some(t) => {
            let inner = trim(t.as_str());
            if inner.is_empty() {
                None
            } else {
                Some(inner.to_owned())
            }
        },
        None => None,
    }
}

/// The lower case of a text, as `str::to_lowercase` gives it.
pub uninterp spec fn lowercase(text: Seq<char>) -> Seq<char>;

/// The lower case of an ASCII character.
pub open spec fn ascii_lower(c: char) -> char {
    if 'A' <= c <= 'Z' {
        (c as u32 + 32) as char
    } else {
        c
    }
}

/// Every character of `text` is an ASCII character.
pub open spec fn all_ascii(text: Seq<char>) -> bool {
    forall|i: int| 0 <= i < text.len() ==> (#[trigger] text[i] as u32) < 128
}

/// Calls `str::to_lowercase`.  The result depends on the text alone and is named `lowercase`.  Of
/// an ASCII text, every letter from `A` to `Z` becomes its small letter and the rest stays.
#[verifier::external_body]
pub(crate) fn to_lowercase(text: &str) -> (r: String)
    ensures
        r@ == lowercase(text@),
        all_ascii(text@) ==> r@ == text@.map_values(|c: char| ascii_lower(c)),
{
    text.to_lowercase()
}

/// The character of a decimal digit.
pub open spec fn digit_char(d: nat) -> char {
    (48 + d) as char
}

/// A number in decimal, without leading zeros.
pub open spec fn decimal(n: nat) -> Seq<char>
    decreases n,
{
    if n < 10 {
        seq![digit_char(n)]
    } else {
        decimal(n / 10).push(digit_char(n % 10))
    }
}

/// Calls `u64::to_string`, which writes the number in decimal.
#[verifier::external_body]
pub(crate) fn decimal_text(n: u64) -> (r: String)
    ensures
        r@ == decimal(n as nat),
{
    n.to_string()
}

/// The number that a sequence of decimal digits stands for; the empty sequence stands for zero.
pub open spec fn digits_value(digits: Seq<char>) -> Option<nat>
    decreases digits.len(),
{
    if digits.len() == 0 {
        Some(0)
    } else {
        match digits_value(digits.drop_last()) {
            Some(v) => if '0' <= digits.last() <= '9' {
                Some((10 * v + (digits.last() as u32 - 48)) as nat)
            } else {
                None
            },
            None => None,
        }
    }
}

/// The number of 64 bits that a text stands for: an optional `+`, then one digit or more.
pub open spec fn parsed(text: Seq<char>) -> Option<u64> {
    let digits = if text.len() > 0 && text.first() == '+' {
        text.drop_first()
    } else {
        text
    };
    if digits.len() == 0 {
        None
    } else {
        match digits_value(digits) {
            Some(v) => if v <= u64::MAX {
                Some(v as u64)
            } else {
                None
            },
            None => None,
        }
    }
}

/// Calls `str::parse::<u64>`, which accepts an optional `+` sign followed by decimal digits only,
/// at least one, whose number fits in 64 bits.
#[verifier::external_body]
pub(crate) fn parse_decimal(text: &str) -> (r: Option<u64>)
    ensures
        r == parsed(text@),
{
    text.parse::<u64>().ok()
}

proof fn lemma_decimal_digits(n: nat)
    ensures
        digits_value(decimal(n)) == Some(n),
        decimal(n).len() > 0,
        '0' <= decimal(n).first() <= '9',
    decreases n,
{
    if n < 10 {
        let s = seq![digit_char(n)];
        assert(s.drop_last() =~= Seq::<char>::empty());
        assert(digits_value(s.drop_last()) == Some(0nat));
    } else {
        lemma_decimal_digits(n / 10);
        let s = decimal(n / 10);
        let d = digit_char(n % 10);
        assert(s.push(d).drop_last() =~= s);
        assert(s.push(d).last() == d);
        assert(s.push(d).first() == s.first());
    }
}

/// Reading a number back from its decimal text gives the number.
pub proof fn parsing_undoes_writing(n: u64)
    ensures
        parsed(decimal(n as nat)) == Some(n),
{
    lemma_decimal_digits(n as nat);
}

/// Different numbers have different decimal texts.
pub proof fn decimal_is_injective(a: u64, b: u64)
    requires
        decimal(a as nat) == decimal(b as nat),
    ensures
        a == b,
{
    parsing_undoes_writing(a);
    parsing_undoes_writing(b);
}

/// The last character boundary of `bytes` that is not after `index`.
pub open spec fn boundary_before(bytes: Seq<u8>, index: nat) -> nat
    decreases index,
{
    if index == 0 || is_char_boundary(bytes, index as int) {
        index
    } else {
        boundary_before(bytes, (index - 1) as nat)
    }
}

/// The last character boundary of `text` that is not after byte `index`, or the end of a text that
/// is not longer.
pub fn floor_char_boundary(text: &str, index: usize) -> (r: usize)
    ensures
        encode_utf8(text@).len() <= index ==> r == encode_utf8(text@).len(),
        index < encode_utf8(text@).len() ==> r == boundary_before(
            encode_utf8(text@),
            index as nat,
        ),
        r <= encode_utf8(text@).len(),
        is_char_boundary(encode_utf8(text@), r as int),
        r <= index,
        forall|k: int|
            r < k <= index && k <= encode_utf8(text@).len() ==> !#[trigger] is_char_boundary(
                encode_utf8(text@),
                k,
            ),
{
    proof {
        encode_utf8_valid_utf8(text@);
        is_char_boundary_start_end_of_seq(encode_utf8(text@));
    }
    let length: usize = text.as_bytes().len();
    if length <= index {
        return length;
    }
    let mut end: usize = index;
    while end > 0 && !text.is_char_boundary(end)
        invariant
            end <= index < encode_utf8(text@).len(),
            forall|k: int|
                end < k <= index ==> !#[trigger] is_char_boundary(encode_utf8(text@), k),
            boundary_before(encode_utf8(text@), index as nat) == boundary_before(
                encode_utf8(text@),
                end as nat,
            ),
        decreases end,
    {
        end = end - 1;
    }
    end
}

/// The first 16 bytes of a text and an ellipsis, without cutting a character in two; a text of
/// fewer than 16 bytes stays as it is.
pub open spec fn fingerprint(text: Seq<char>) -> Seq<char> {
    let bytes = encode_utf8(text);
    if bytes.len() >= 16 {
        decode_utf8(bytes.subrange(0, boundary_before(bytes, 16) as int)) + "..."@
    } else {
        text
    }
}

/// Abbreviates a text to its fingerprint.
pub fn fingerprint_text(text: &String) -> (r: String)
    ensures
        r@ == fingerprint(text@),
{
    let s = text.as_str();
    if s.as_bytes().len() >= 16 {
        let end: usize = floor_char_boundary(s, 16);
        let (head, tail) = s.split_at(end);
        proof {
            encode_utf8_decode_utf8(head@);
            encode_utf8_valid_utf8(s@);
            is_char_boundary_start_end_of_seq(encode_utf8(s@));
        }
        head.to_owned().concat("...")
    } else {
        text.clone()
    }
}

/// A shortened text is a beginning of the text of 16 bytes at most, followed by an ellipsis.
pub proof fn fingerprint_is_a_beginning(text: Seq<char>)
    requires
        encode_utf8(text).len() >= 16,
    ensures
        exists|k: int|
            0 <= k <= text.len() && fingerprint(text) == #[trigger] text.take(k) + "..."@
                && encode_utf8(text.take(k)).len() <= 16,
{
    let bytes = encode_utf8(text);
    encode_utf8_valid_utf8(text);
    is_char_boundary_start_end_of_seq(bytes);
    boundary_is_the_last_before(bytes, 16);
    let end = boundary_before(bytes, 16) as int;
    decode_utf8_split(bytes, end);
    encode_utf8_decode_utf8(text);
    let head = decode_utf8(bytes.subrange(0, end));
    let k = head.len() as int;
    assert(text.take(k) =~= head);
    valid_utf8_split(bytes, end);
    decode_utf8_encode_utf8(bytes.subrange(0, end));
}

/// A text is encoded part by part, and between the parts is a character boundary.
proof fn lemma_encode_parts(a: Seq<char>, b: Seq<char>)
    ensures
        encode_utf8(a + b) == encode_utf8(a) + encode_utf8(b),
        is_char_boundary(encode_utf8(a + b), encode_utf8(a).len() as int),
    decreases a.len(),
{
    encode_utf8_valid_utf8(a + b);
    if a.len() == 0 {
        assert(a + b =~= b);
        assert(encode_utf8(a) + encode_utf8(b) =~= encode_utf8(b));
    } else {
        let rest = a.drop_first();
        lemma_encode_parts(rest, b);
        assert((a + b).drop_first() =~= rest + b);
        assert((a + b)[0] == a[0]);
        let head = encode_scalar(a[0] as u32);
        assert(encode_utf8(a + b) =~= encode_utf8(a) + encode_utf8(b));
        encode_utf8_first_scalar(a + b);
        encode_utf8_valid_utf8(rest + b);
        assert(pop_first_scalar(encode_utf8(a + b)) =~= encode_utf8(rest + b));
        assert(encode_utf8(a).len() == head.len() + encode_utf8(rest).len());
    }
}

/// A shortened text is cut as late as 16 bytes allow: with one character more, it would be longer.
pub proof fn fingerprint_is_as_long_as_it_may_be(text: Seq<char>, k: int)
    requires
        encode_utf8(text).len() >= 16,
        0 <= k < text.len(),
        fingerprint(text) == text.take(k) + "..."@,
    ensures
        encode_utf8(text.take(k + 1)).len() > 16,
{
    let bytes = encode_utf8(text);
    encode_utf8_valid_utf8(text);
    is_char_boundary_start_end_of_seq(bytes);
    boundary_is_the_last_before(bytes, 16);
    let end = boundary_before(bytes, 16) as int;
    valid_utf8_split(bytes, end);
    decode_utf8_encode_utf8(bytes.subrange(0, end));
    let head = decode_utf8(bytes.subrange(0, end));
    assert(fingerprint(text) == head + "..."@);
    assert((head + "..."@).len() == head.len() + "..."@.len());
    assert((text.take(k) + "..."@).len() == k + "..."@.len());
    assert(head =~= (head + "..."@).take(k));
    assert(text.take(k) =~= (text.take(k) + "..."@).take(k));
    assert(encode_utf8(text.take(k)).len() == end);
    let more = text.take(k + 1);
    assert(more + text.skip(k + 1) =~= text);
    lemma_encode_parts(more, text.skip(k + 1));
    assert(more =~= text.take(k) + seq![text[k]]);
    lemma_encode_parts(text.take(k), seq![text[k]]);
    encode_utf8_first_scalar(seq![text[k]]);
    assert(encode_utf8(seq![text[k]]).len() > 0);
}

/// A text of fewer than 16 bytes is its own fingerprint.
pub proof fn short_texts_are_not_cut(text: Seq<char>)
    requires
        encode_utf8(text).len() < 16,
    ensures
        fingerprint(text) == text,
{
}

/// The boundary before an index is a boundary that is not after it, and there is none between.
pub proof fn boundary_is_the_last_before(bytes: Seq<u8>, index: nat)
    requires
        valid_utf8(bytes),
        index <= bytes.len(),
    ensures
        boundary_before(bytes, index) <= index,
        is_char_boundary(bytes, boundary_before(bytes, index) as int),
        forall|k: int|
            boundary_before(bytes, index) < k <= index ==> !#[trigger] is_char_boundary(bytes, k),
    decreases index,
{
    is_char_boundary_start_end_of_seq(bytes);
    if index != 0 && !is_char_boundary(bytes, index as int) {
        boundary_is_the_last_before(bytes, (index - 1) as nat);
    }
}

} // verus!
