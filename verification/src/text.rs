//! Whitespace and trimming of text fields.

use vstd::prelude::*;
use vstd::std_specs::iter::IteratorSpec;

verus! {

/// Whether `c` has the Unicode property White_Space.
pub open spec fn is_whitespace(c: char) -> bool {
    let n = c as u32;
    ||| 0x09 <= n <= 0x0D
    ||| n == 0x20
    ||| n == 0x85
    ||| n == 0xA0
    ||| n == 0x1680
    ||| 0x2000 <= n <= 0x200A
    ||| n == 0x2028
    ||| n == 0x2029
    ||| n == 0x202F
    ||| n == 0x205F
    ||| n == 0x3000
}

/// `s` without its leading whitespace.
pub open spec fn trim_front(s: Seq<char>) -> Seq<char>
    decreases s.len(),
{
    if s.len() > 0 && is_whitespace(s.first()) {
        trim_front(s.drop_first())
    } else {
        s
    }
}

/// `s` without its trailing whitespace.
pub open spec fn trim_back(s: Seq<char>) -> Seq<char>
    decreases s.len(),
{
    if s.len() > 0 && is_whitespace(s.last()) {
        trim_back(s.drop_last())
    } else {
        s
    }
}

/// `s` without its leading and trailing whitespace.
pub open spec fn trimmed(s: Seq<char>) -> Seq<char> {
    trim_back(trim_front(s))
}

/// Decides `is_whitespace` on a character.
pub fn char_is_whitespace(c: char) -> (b: bool)
    ensures
        b == is_whitespace(c),
{
    let n: u32 = c as u32;
    (0x09 <= n && n <= 0x0D) || n == 0x20 || n == 0x85 || n == 0xA0 || n == 0x1680 || (0x2000 <= n
        && n <= 0x200A) || n == 0x2028 || n == 0x2029 || n == 0x202F || n == 0x205F || n == 0x3000
}

/// Leading whitespace is all that `trim_front` takes away: where the first
/// `a` characters are whitespace and the next one is not, the rest stays.
pub proof fn lemma_trim_front_is_skip(s: Seq<char>, a: int)
    requires
        0 <= a <= s.len(),
        forall|k: int| 0 <= k < a ==> is_whitespace(#[trigger] s[k]),
        a < s.len() ==> !is_whitespace(s[a]),
    ensures
        trim_front(s) == s.skip(a),
    decreases a,
{
    if a == 0 {
        assert(s.skip(0) =~= s);
    } else {
        assert(is_whitespace(s[0]));
        let rest = s.drop_first();
        assert forall|k: int| 0 <= k < a - 1 implies is_whitespace(#[trigger] rest[k]) by {
            assert(rest[k] == s[k + 1]);
        }
        lemma_trim_front_is_skip(rest, a - 1);
        assert(rest.skip(a - 1) =~= s.skip(a));
    }
}

/// Trailing whitespace is all that `trim_back` takes away: where everything
/// from index `b` on is whitespace and the character before it is not, the
/// first `b` characters stay.
pub proof fn lemma_trim_back_is_take(s: Seq<char>, b: int)
    requires
        0 <= b <= s.len(),
        forall|k: int| b <= k < s.len() ==> is_whitespace(#[trigger] s[k]),
        0 < b ==> !is_whitespace(s[b - 1]),
    ensures
        trim_back(s) == s.take(b),
    decreases s.len() - b,
{
    if b == s.len() {
        assert(s.take(b) =~= s);
    } else {
        assert(is_whitespace(s[s.len() - 1]));
        let rest = s.drop_last();
        assert forall|k: int| b <= k < rest.len() implies is_whitespace(#[trigger] rest[k]) by {
            assert(rest[k] == s[k]);
        }
        lemma_trim_back_is_take(rest, b);
        assert(rest.take(b) =~= s.take(b));
    }
}

/// Whether every character of `s` is whitespace.
pub open spec fn all_whitespace(s: Seq<char>) -> bool {
    forall|k: int| 0 <= k < s.len() ==> is_whitespace(#[trigger] s[k])
}

/// What `trim_front` leaves does not begin with whitespace.
pub proof fn lemma_trim_front_head(s: Seq<char>)
    ensures
        trim_front(s).len() > 0 ==> !is_whitespace(trim_front(s).first()),
    decreases s.len(),
{
    if s.len() > 0 && is_whitespace(s.first()) {
        lemma_trim_front_head(s.drop_first());
    }
}

/// What `trim_back` leaves is a prefix of its argument and does not end in
/// whitespace.
pub proof fn lemma_trim_back_tail(s: Seq<char>)
    ensures
        trim_back(s).len() <= s.len(),
        trim_back(s) == s.take(trim_back(s).len() as int),
        trim_back(s).len() > 0 ==> !is_whitespace(trim_back(s).last()),
    decreases s.len(),
{
    if s.len() > 0 && is_whitespace(s.last()) {
        let rest = s.drop_last();
        lemma_trim_back_tail(rest);
        assert(rest.take(trim_back(rest).len() as int) =~= s.take(trim_back(rest).len() as int));
    } else {
        assert(s.take(s.len() as int) =~= s);
    }
}

/// Whitespace put in front of a text is trimmed away with the text's own.
pub proof fn lemma_trim_front_skips_padding(pad: Seq<char>, s: Seq<char>)
    requires
        all_whitespace(pad),
    ensures
        trim_front(pad + s) == trim_front(s),
    decreases pad.len(),
{
    if pad.len() == 0 {
        assert(pad + s =~= s);
    } else {
        assert(is_whitespace(pad[0]));
        assert((pad + s).first() == pad[0]);
        assert((pad + s).drop_first() =~= pad.drop_first() + s);
        assert forall|k: int| 0 <= k < pad.drop_first().len() implies is_whitespace(
            #[trigger] pad.drop_first()[k],
        ) by {
            assert(pad.drop_first()[k] == pad[k + 1]);
        }
        lemma_trim_front_skips_padding(pad.drop_first(), s);
    }
}

/// Whitespace put behind a text is trimmed away with the text's own.
pub proof fn lemma_trim_back_skips_padding(s: Seq<char>, pad: Seq<char>)
    requires
        all_whitespace(pad),
    ensures
        trim_back(s + pad) == trim_back(s),
    decreases pad.len(),
{
    if pad.len() == 0 {
        assert(s + pad =~= s);
    } else {
        assert(is_whitespace(pad[pad.len() - 1]));
        assert((s + pad).last() == pad[pad.len() - 1]);
        assert((s + pad).drop_last() =~= s + pad.drop_last());
        assert forall|k: int| 0 <= k < pad.drop_last().len() implies is_whitespace(
            #[trigger] pad.drop_last()[k],
        ) by {
            assert(pad.drop_last()[k] == pad[k]);
        }
        lemma_trim_back_skips_padding(s, pad.drop_last());
    }
}

/// Trailing whitespace does not change where a text begins: either the text
/// holds a character that is no whitespace, and `trim_front` keeps the padding
/// behind it, or nothing is left with or without the padding.
proof fn lemma_trim_front_before_padding(s: Seq<char>, pad: Seq<char>)
    requires
        all_whitespace(pad),
    ensures
        trim_front(s).len() > 0 ==> trim_front(s + pad) == trim_front(s) + pad,
        trim_front(s).len() == 0 ==> trim_front(s + pad).len() == 0,
    decreases s.len(),
{
    if s.len() == 0 {
        lemma_trim_front_skips_padding(pad, s);
        assert(pad + s =~= s + pad);
    } else {
        assert((s + pad).first() == s.first());
        if is_whitespace(s.first()) {
            assert((s + pad).drop_first() =~= s.drop_first() + pad);
            lemma_trim_front_before_padding(s.drop_first(), pad);
        }
    }
}

/// Trimming is blind to whitespace around a text: padded on either side with
/// whitespace, a text trims to what it trims to alone.
pub proof fn lemma_trimmed_ignores_padding(left: Seq<char>, s: Seq<char>, right: Seq<char>)
    requires
        all_whitespace(left),
        all_whitespace(right),
    ensures
        trimmed(left + s + right) == trimmed(s),
{
    assert(left + s + right =~= left + (s + right));
    lemma_trim_front_skips_padding(left, s + right);
    lemma_trim_front_before_padding(s, right);
    if trim_front(s).len() > 0 {
        lemma_trim_back_skips_padding(trim_front(s), right);
    } else {
        assert(trim_front(s + right) =~= trim_front(s));
    }
}

/// Trimming a trimmed text changes nothing, and a trimmed text neither
/// begins nor ends with whitespace.
pub proof fn lemma_trimmed_is_idempotent(s: Seq<char>)
    ensures
        trimmed(trimmed(s)) == trimmed(s),
        trimmed(s).len() > 0 ==> !is_whitespace(trimmed(s).first()) && !is_whitespace(
            trimmed(s).last(),
        ),
{
    let front = trim_front(s);
    let t = trimmed(s);
    lemma_trim_front_head(s);
    lemma_trim_back_tail(front);
    if t.len() > 0 {
        assert(t.first() == front.first());
    }
}

/// Whether two texts are the same, character for character.
pub fn same_text(a: &str, b: &str) -> (same: bool)
    ensures
        same == (a@ == b@),
{
    broadcast use vstd::string::group_string_axioms;

    let mut left = a.chars();
    let mut right = b.chars();
    let ghost mut done: int = 0;
    loop
        invariant
            left.obeys_prophetic_iter_laws(),
            right.obeys_prophetic_iter_laws(),
            0 <= done <= a@.len(),
            done <= b@.len(),
            left.remaining() == a@.skip(done),
            right.remaining() == b@.skip(done),
            a@.take(done) == b@.take(done),
            left.decrease() is Some,
        decreases left.decrease()->0,
    {
        match (left.next(), right.next()) {
            (None, None) => {
                proof {
                    assert(a@.take(done) =~= a@);
                    assert(b@.take(done) =~= b@);
                }
                return true;
            },
            (Some(c), Some(d)) => {
                if c != d {
                    assert(a@[done] != b@[done]);
                    return false;
                }
                proof {
                    assert(a@.take(done + 1) =~= a@.take(done).push(a@[done]));
                    assert(b@.take(done + 1) =~= b@.take(done).push(b@[done]));
                    assert(a@.skip(done).drop_first() =~= a@.skip(done + 1));
                    assert(b@.skip(done).drop_first() =~= b@.skip(done + 1));
                    done = done + 1;
                }
            },
            _ => {
                assert(a@.len() != b@.len());
                return false;
            },
        }
    }
}

/// The text of `s` without its leading and trailing whitespace.
pub fn trim(s: &str) -> (out: String)
    ensures
        out@ == trimmed(s@),
{
    let n: usize = s.unicode_len();
    let mut start: usize = 0;
    let mut end: usize = 0;
    let mut i: usize = 0;
    for c in it: s.chars()
        invariant
            it.seq() == s@,
            n == s@.len(),
            i == it.index(),
            start <= end <= i,
            end == 0 ==> start == 0,
            end > 0 ==> start < end && !is_whitespace(s@[start as int]) && !is_whitespace(
                s@[end - 1],
            ),
            forall|k: int| 0 <= k < i && !(start <= k < end) ==> is_whitespace(#[trigger] s@[k]),
    {
        if !char_is_whitespace(c) {
            if end == 0 {
                start = i;
            }
            end = i + 1;
        }
        i = i + 1;
    }
    proof {
        if end == 0 {
            lemma_trim_front_is_skip(s@, n as int);
            assert(s@.skip(n as int) =~= Seq::<char>::empty());
            assert(s@.subrange(0, 0) =~= Seq::<char>::empty());
        } else {
            lemma_trim_front_is_skip(s@, start as int);
            lemma_trim_back_is_take(s@.skip(start as int), end - start);
            assert(s@.skip(start as int).take(end - start) =~= s@.subrange(
                start as int,
                end as int,
            ));
        }
    }
    s.substring_char(start, end).to_owned()
}

} // verus!
