//! Trimming of task text.

use vstd::prelude::*;

verus! {

/// Whether `c` is white space: whether it has the Unicode property
/// `White_Space`. The Unicode Character Database lists 25 characters under
/// it: the controls from tab to carriage return, the space, next line, the
/// no-break space, the Ogham space mark, the spaces from en quad to hair
/// space, the line and the paragraph separator, the narrow no-break space,
/// the medium mathematical space and the ideographic space.
pub open spec fn is_whitespace(c: char) -> bool {
    let n: u32 = c as u32;
    ||| 0x09 <= n <= 0x0D
    ||| n == 0x20
    ||| n == 0x85
    ||| n == 0xA0
    ||| n == 0x1680
    ||| 0x2000 <= n <= 0x200A
    ||| n == 0x2028
    ||| n == 0x2029
    ||| n == 0x202F
    ||| n == 0x205F
    ||| n == 0x3000
}

/// Specifies `char::is_whitespace`, which std documents as the test for the
/// Unicode property `White_Space`: it returns `true` for the characters
/// listed in `is_whitespace` and for no other.
pub assume_specification[ char::is_whitespace ](c: char) -> (r: bool)
    ensures
        r == is_whitespace(c),
;

/// A text without any visible character.
pub open spec fn is_blank(s: Seq<char>) -> bool {
    forall|i: int| 0 <= i < s.len() ==> is_whitespace(#[trigger] s[i])
}

/// `s` without its leading white space.
pub open spec fn trim_start(s: Seq<char>) -> Seq<char>
    decreases s.len(),
{
    if s.len() > 0 && is_whitespace(s.first()) {
        trim_start(s.drop_first())
    } else {
        s
    }
}

/// `s` without its trailing white space.
pub open spec fn trim_end(s: Seq<char>) -> Seq<char>
    decreases s.len(),
{
    if s.len() > 0 && is_whitespace(s.last()) {
        trim_end(s.drop_last())
    } else {
        s
    }
}

/// `s` without its leading and trailing white space.
pub open spec fn trimmed(s: Seq<char>) -> Seq<char> {
    trim_end(trim_start(s))
}

/// Dropping a leading run of white space that ends before a visible
/// character, or at the end of the text, is `trim_start`.
pub proof fn lemma_trim_start_is_skip(s: Seq<char>, k: int)
    requires
        0 <= k <= s.len(),
        forall|i: int| 0 <= i < k ==> is_whitespace(#[trigger] s[i]),
        k < s.len() ==> !is_whitespace(s[k]),
    ensures
        trim_start(s) == s.skip(k),
    decreases k,
{
    if k == 0 {
        assert(s.skip(0) =~= s);
    } else {
        let rest = s.drop_first();
        assert forall|i: int| 0 <= i < k - 1 implies is_whitespace(#[trigger] rest[i]) by {
            assert(rest[i] == s[i + 1]);
        }
        lemma_trim_start_is_skip(rest, k - 1);
        assert(rest.skip(k - 1) =~= s.skip(k));
    }
}

/// Cutting a text after its last visible character is `trim_end`.
pub proof fn lemma_trim_end_is_take(s: Seq<char>, k: int)
    requires
        0 <= k <= s.len(),
        forall|i: int| k <= i < s.len() ==> is_whitespace(#[trigger] s[i]),
        k > 0 ==> !is_whitespace(s[k - 1]),
    ensures
        trim_end(s) == s.take(k),
    decreases s.len() - k,
{
    if k == s.len() {
        assert(s.take(k) =~= s);
    } else {
        let rest = s.drop_last();
        lemma_trim_end_is_take(rest, k);
        assert(rest.take(k) =~= s.take(k));
    }
}

/// A text trims to nothing exactly when it is blank.
pub proof fn lemma_blank_iff_trimmed_empty(s: Seq<char>)
    ensures
        is_blank(s) <==> trimmed(s).len() == 0,
    decreases s.len(),
{
    if s.len() > 0 && is_whitespace(s.first()) {
        let rest = s.drop_first();
        lemma_blank_iff_trimmed_empty(rest);
        if is_blank(rest) {
            assert forall|i: int| 0 <= i < s.len() implies is_whitespace(#[trigger] s[i]) by {
                if i > 0 {
                    assert(s[i] == rest[i - 1]);
                }
            }
        }
        if is_blank(s) {
            assert forall|i: int| 0 <= i < rest.len() implies is_whitespace(#[trigger] rest[i]) by {
                assert(rest[i] == s[i + 1]);
            }
        }
    } else if s.len() > 0 {
        lemma_trim_end_keeps_visible_head(s);
    }
}

/// Trailing white space ends at the latest at a visible first character.
pub proof fn lemma_trim_end_keeps_visible_head(s: Seq<char>)
    requires
        s.len() > 0,
        !is_whitespace(s.first()),
    ensures
        trim_end(s).len() > 0,
    decreases s.len(),
{
    if is_whitespace(s.last()) {
        lemma_trim_end_keeps_visible_head(s.drop_last());
    }
}

/// The text with its leading and trailing white space removed, as `str::trim`
/// gives it.
pub fn trim(s: &str) -> (r: String)
    ensures
        r@ == trimmed(s@),
{
    let len = s.unicode_len();
    let mut start: usize = 0;
    let mut end: usize = 0;
    let mut n: usize = 0;
    for c in it: s.chars()
        invariant
            it.seq() == s@,
            len == s@.len(),
            n == it.index(),
            start <= n <= len,
            end <= n,
            end > 0 ==> start < end,
            forall|i: int| 0 <= i < start ==> is_whitespace(#[trigger] s@[i]),
            forall|i: int| end <= i < n ==> is_whitespace(#[trigger] s@[i]),
            end == 0 ==> start == n,
            end > 0 ==> !is_whitespace(s@[start as int]) && !is_whitespace(s@[end - 1]),
    {
        if !c.is_whitespace() {
            if end == 0 {
                start = n;
            }
            end = n + 1;
        } else if end == 0 {
            start = n + 1;
        }
        n = n + 1;
    }
    proof {
        let skipped = s@.skip(start as int);
        lemma_trim_start_is_skip(s@, start as int);
        if end == 0 {
            assert(skipped.len() == 0);
        } else {
            assert forall|i: int| end - start <= i < skipped.len() implies is_whitespace(
                #[trigger] skipped[i],
            ) by {
                assert(skipped[i] == s@[i + start]);
            }
            assert(skipped[end - start - 1] == s@[end - 1]);
            lemma_trim_end_is_take(skipped, end - start);
            assert(skipped.take(end - start) =~= s@.subrange(start as int, end as int));
        }
    }
    if end == 0 {
        String::new()
    } else {
        s.substring_char(start, end).to_owned()
    }
}

} // verus!
