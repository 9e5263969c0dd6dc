//! Character and string helpers shared by the model and the screen:
//! case folding, lexicographic comparison, prefix tests, digit parsing,
//! and conversions between `Vec<char>` and `String`.

use vstd::prelude::*;

verus! {

/// The sequence of characters that Unicode case folding gives for `s`,
/// as `str::to_lowercase` computes it. It depends on the characters alone.
pub uninterp spec fn lower_of(s: Seq<char>) -> Seq<char>;

/// Relies on str::to_lowercase: the result is a function of the characters
/// alone, named `lower_of`.
#[verifier::external_body]
pub(crate) fn lowercase(s: &str) -> (r: String)
    ensures
        r@ == lower_of(s@),
{
    s.to_lowercase()
}

/// Relies on String::from_iter: collects exactly the given characters,
/// in order.
#[verifier::external_body]
pub(crate) fn chars_to_string(v: &Vec<char>) -> (r: String)
    ensures
        r@ == v@,
{
    v.iter().collect()
}

/// Lexicographic order on character sequences, by code point; the empty
/// sequence comes first.
pub open spec fn lex_le(a: Seq<char>, b: Seq<char>) -> bool
    decreases a.len(),
{
    if a.len() == 0 {
        true
    } else if b.len() == 0 {
        false
    } else if (a[0] as u32) < (b[0] as u32) {
        true
    } else if (a[0] as u32) > (b[0] as u32) {
        false
    } else {
        lex_le(a.drop_first(), b.drop_first())
    }
}

/// Any two character sequences are ordered one way or the other.
pub proof fn lemma_lex_le_total(a: Seq<char>, b: Seq<char>)
    ensures
        lex_le(a, b) || lex_le(b, a),
    decreases a.len(),
{
    if a.len() != 0 && b.len() != 0 && a[0] as u32 == b[0] as u32 {
        lemma_lex_le_total(a.drop_first(), b.drop_first());
    }
}

/// The lexicographic order is transitive.
pub proof fn lemma_lex_le_trans(a: Seq<char>, b: Seq<char>, c: Seq<char>)
    requires
        lex_le(a, b),
        lex_le(b, c),
    ensures
        lex_le(a, c),
    decreases a.len(),
{
    if a.len() != 0 && b.len() != 0 && c.len() != 0 && a[0] as u32 == b[0] as u32 && b[0] as u32
        == c[0] as u32 {
        lemma_lex_le_trans(a.drop_first(), b.drop_first(), c.drop_first());
    }
}

/// Compares two strings lexicographically by code point.
pub fn lex_le_exec(a: &str, b: &str) -> (r: bool)
    ensures
        r == lex_le(a@, b@),
{
    let a_len = a.unicode_len();
    let b_len = b.unicode_len();
    let mut i: usize = 0;
    assert(a@.skip(0) =~= a@);
    assert(b@.skip(0) =~= b@);
    loop
        invariant
            i <= a_len,
            i <= b_len,
            a_len == a@.len(),
            b_len == b@.len(),
            lex_le(a@, b@) == lex_le(a@.skip(i as int), b@.skip(i as int)),
        decreases a_len - i,
    {
        if i == a_len {
            assert(a@.skip(i as int).len() == 0);
            return true;
        }
        if i == b_len {
            assert(b@.skip(i as int).len() == 0);
            assert(a@.skip(i as int).len() != 0);
            return false;
        }
        let ca = a.get_char(i);
        let cb = b.get_char(i);
        assert(a@.skip(i as int)[0] == a@[i as int]);
        assert(b@.skip(i as int)[0] == b@[i as int]);
        if (ca as u32) < (cb as u32) {
            return true;
        }
        if (ca as u32) > (cb as u32) {
            return false;
        }
        assert(a@.skip(i as int).drop_first() =~= a@.skip(i as int + 1));
        assert(b@.skip(i as int).drop_first() =~= b@.skip(i as int + 1));
        i = i + 1;
    }
}

/// `p` is an initial segment of `s`.
pub open spec fn is_prefix_of(p: Seq<char>, s: Seq<char>) -> bool {
    p.len() <= s.len() && p == s.subrange(0, p.len() as int)
}

/// Tests whether `p` is a prefix of `s`, character by character.
pub fn starts_with_exec(s: &str, p: &str) -> (r: bool)
    ensures
        r == is_prefix_of(p@, s@),
{
    let s_len = s.unicode_len();
    let p_len = p.unicode_len();
    if p_len > s_len {
        return false;
    }
    let mut i: usize = 0;
    while i < p_len
        invariant
            0 <= i <= p_len,
            p_len <= s_len,
            s_len == s@.len(),
            p_len == p@.len(),
            forall|j: int| 0 <= j < i ==> p@[j] == s@[j],
        decreases p_len - i,
    {
        if s.get_char(i) as u32 != p.get_char(i) as u32 {
            assert(s@[i as int] as u32 != p@[i as int] as u32);
            assert(p@ != s@.subrange(0, p@.len() as int)) by {
                assert(s@.subrange(0, p@.len() as int)[i as int] == s@[i as int]);
            }
            return false;
        }
        assert(s@[i as int] == p@[i as int]) by {
            lemma_char_eq_by_u32(s@[i as int], p@[i as int]);
        }
        i = i + 1;
    }
    assert(p@ =~= s@.subrange(0, p@.len() as int));
    true
}

/// Two characters with the same code point are the same character.
pub proof fn lemma_char_eq_by_u32(a: char, b: char)
    requires
        a as u32 == b as u32,
    ensures
        a == b,
{
    vstd::utf8::char_u32_cast(a, a as u32);
    vstd::utf8::char_u32_cast(b, b as u32);
}

/// The text holds no line break.
pub open spec fn no_newline(s: Seq<char>) -> bool {
    forall|i: int| 0 <= i < s.len() ==> s[i] != '\n'
}

/// The final segment of a path: everything after the last `/`, or the whole
/// path when it has none.
pub open spec fn after_last_slash(p: Seq<char>) -> Seq<char>
    decreases p.len(),
{
    if p.len() == 0 {
        p
    } else if p[p.len() - 1] == '/' {
        Seq::empty()
    } else {
        after_last_slash(p.drop_last()).push(p[p.len() - 1])
    }
}

/// Past the last slash, the final segment is exactly the rest of the path.
proof fn lemma_after_last_slash(p: Seq<char>, i: int)
    requires
        0 <= i <= p.len(),
        forall|j: int| i <= j < p.len() ==> p[j] != '/',
        i > 0 ==> p[i - 1] == '/',
    ensures
        after_last_slash(p) =~= p.subrange(i, p.len() as int),
    decreases p.len(),
{
    if p.len() == 0 {
    } else if p[p.len() - 1] == '/' {
        assert(i == p.len());
    } else {
        assert(i < p.len());
        lemma_after_last_slash(p.drop_last(), i);
        assert(after_last_slash(p) =~= p.drop_last().subrange(i, p.len() - 1).push(
            p[p.len() - 1],
        ));
    }
}

/// Tests whether the final path segment of `path` is exactly `name`.
pub fn file_name_matches(path: &str, name: &str) -> (r: bool)
    ensures
        r == (after_last_slash(path@) == name@),
{
    let p_len = path.unicode_len();
    let mut start: usize = 0;
    let mut j: usize = 0;
    while j < p_len
        invariant
            0 <= j <= p_len,
            p_len == path@.len(),
            start <= j,
            forall|k: int| start <= k < j ==> path@[k] != '/',
            start > 0 ==> path@[start - 1] == '/',
        decreases p_len - j,
    {
        if path.get_char(j) == '/' {
            start = j + 1;
        }
        j = j + 1;
    }
    let suffix = path.substring_char(start, p_len);
    proof {
        lemma_after_last_slash(path@, start as int);
        assert(suffix@ == after_last_slash(path@));
    }
    let eq = String::from_str(suffix) == String::from_str(name);
    proof {
        if suffix@ == name@ {
            assert(after_last_slash(path@) == name@);
        }
    }
    eq
}

/// `c` is a decimal digit.
pub open spec fn is_digit(c: char) -> bool {
    '0' as u32 <= c as u32 <= '9' as u32
}

/// Every character in `s` is a decimal digit.
pub open spec fn all_digits(s: Seq<char>) -> bool {
    forall|i: int| 0 <= i < s.len() ==> is_digit(#[trigger] s[i])
}

/// The number that a sequence of decimal digits denotes.
pub open spec fn digits_value(s: Seq<char>) -> nat
    decreases s.len(),
{
    if s.len() == 0 {
        0
    } else {
        digits_value(s.drop_last()) * 10 + (s.last() as u32 - '0' as u32) as nat
    }
}

/// The repeat count a digit buffer denotes: its numeric value when it is a
/// nonempty digit string that fits in a `u64`, and 1 otherwise.
pub open spec fn spec_repeat_count(s: Seq<char>) -> u64 {
    if s.len() == 0 || !all_digits(s) || digits_value(s) > u64::MAX {
        1
    } else {
        digits_value(s) as u64
    }
}

/// Appending digits never lowers the value.
proof fn lemma_digits_value_prefix_le(s: Seq<char>, i: int)
    requires
        0 <= i <= s.len(),
    ensures
        digits_value(s.subrange(0, i)) <= digits_value(s),
    decreases s.len() - i,
{
    if i < s.len() {
        let t = s.subrange(0, i + 1);
        assert(t.drop_last() =~= s.subrange(0, i));
        assert(digits_value(s.subrange(0, i)) <= digits_value(t)) by {
            assert(digits_value(t.drop_last()) * 10 >= digits_value(t.drop_last())) by {
                assert(digits_value(t.drop_last()) >= 0);
            }
        }
        lemma_digits_value_prefix_le(s, i + 1);
    } else {
        assert(s.subrange(0, i) =~= s);
    }
}

/// Parses a buffer of decimal digits as a repeat count, defaulting to 1 when
/// the buffer is empty or its value does not fit in a `u64`.
pub fn parse_repeat_count(buffer: &Vec<char>) -> (r: u64)
    requires
        all_digits(buffer@),
    ensures
        r == spec_repeat_count(buffer@),
{
    if buffer.len() == 0 {
        return 1;
    }
    let mut acc: u64 = 0;
    let mut i: usize = 0;
    while i < buffer.len()
        invariant
            0 <= i <= buffer@.len(),
            all_digits(buffer@),
            acc == digits_value(buffer@.subrange(0, i as int)),
        decreases buffer@.len() - i,
    {
        let c = buffer[i];
        assert(is_digit(buffer@[i as int]));
        let d: u32 = c as u32 - '0' as u32;
        let wide: u128 = acc as u128 * 10 + d as u128;
        if wide > u64::MAX as u128 {
            proof {
                assert(buffer@.subrange(0, i as int + 1).drop_last() =~= buffer@.subrange(
                    0,
                    i as int,
                ));
                assert(digits_value(buffer@.subrange(0, i as int + 1)) == acc * 10 + d);
                lemma_digits_value_prefix_le(buffer@, i as int + 1);
            }
            return 1;
        }
        acc = wide as u64;
        assert(buffer@.subrange(0, i as int + 1).drop_last() =~= buffer@.subrange(0, i as int));
        i = i + 1;
    }
    assert(buffer@.subrange(0, buffer@.len() as int) =~= buffer@);
    acc
}

} // verus!
