//! Whitespace handling for the text a user types.
//!
//! A name or a task text counts only if it is not blank, and a task text is
//! stored without the whitespace around it. Both rules are stated here over
//! sequences of characters.

use vstd::prelude::*;
use vstd::string::StringExecFns;

verus! {

/// The characters that Unicode gives the property `White_Space`.
pub open spec fn whitespace(c: char) -> bool {
    let n = c as u32;
    ||| 0x09 <= n <= 0x0D
    ||| n == 0x20
    ||| n == 0x85
    ||| n == 0xA0
    ||| n == 0x1680
    ||| 0x2000 <= n <= 0x200A
    ||| n == 0x2028
    ||| n == 0x2029
    ||| n == 0x202F
    ||| n == 0x205F
    ||| n == 0x3000
}

/// A text is blank when it holds nothing but whitespace. The empty text is
/// blank.
pub open spec fn blank(s: Seq<char>) -> bool {
    forall|i: int| 0 <= i < s.len() ==> whitespace(#[trigger] s[i])
}

/// `s` without the whitespace at its start.
pub open spec fn trim_start(s: Seq<char>) -> Seq<char>
    decreases s.len(),
{
    if s.len() > 0 && whitespace(s.first()) {
        trim_start(s.drop_first())
    } else {
        s
    }
}

/// `s` without the whitespace at its end.
pub open spec fn trim_end(s: Seq<char>) -> Seq<char>
    decreases s.len(),
{
    if s.len() > 0 && whitespace(s.last()) {
        trim_end(s.drop_last())
    } else {
        s
    }
}

/// `s` without the whitespace at either end.
pub open spec fn trimmed(s: Seq<char>) -> Seq<char> {
    trim_end(trim_start(s))
}

/// Where the first `a` characters of `s` are whitespace and the next one, if
/// there is one, is not, `trim_start` removes exactly those `a`.
pub proof fn lemma_trim_start_at(s: Seq<char>, a: int)
    requires
        0 <= a <= s.len(),
        forall|i: int| 0 <= i < a ==> whitespace(#[trigger] s[i]),
        a < s.len() ==> !whitespace(s[a]),
    ensures
        trim_start(s) == s.subrange(a, s.len() as int),
    decreases a,
{
    if a == 0 {
        assert(s.subrange(0, s.len() as int) == s);
    } else {
        let rest = s.drop_first();
        assert forall|i: int| 0 <= i < a - 1 implies whitespace(#[trigger] rest[i]) by {
            assert(rest[i] == s[i + 1]);
        }
        lemma_trim_start_at(rest, a - 1);
        assert(rest.subrange(a - 1, rest.len() as int) == s.subrange(a, s.len() as int));
    }
}

/// Where the characters of `s` from `b` on are whitespace and the one before
/// `b`, if there is one, is not, `trim_end` keeps exactly the first `b`.
pub proof fn lemma_trim_end_at(s: Seq<char>, b: int)
    requires
        0 <= b <= s.len(),
        forall|i: int| b <= i < s.len() ==> whitespace(#[trigger] s[i]),
        0 < b ==> !whitespace(s[b - 1]),
    ensures
        trim_end(s) == s.subrange(0, b),
    decreases s.len() - b,
{
    if b == s.len() {
        assert(s.subrange(0, b) == s);
    } else {
        let rest = s.drop_last();
        lemma_trim_end_at(rest, b);
        assert(rest.subrange(0, b) == s.subrange(0, b));
    }
}

/// A text is blank exactly when nothing is left of it after trimming.
pub proof fn lemma_trimmed_empty_iff_blank(s: Seq<char>)
    ensures
        trimmed(s).len() == 0 <==> blank(s),
    decreases s.len(),
{
    if s.len() > 0 && whitespace(s.first()) {
        let rest = s.drop_first();
        lemma_trimmed_empty_iff_blank(rest);
        if blank(rest) {
            assert forall|i: int| 0 <= i < s.len() implies whitespace(#[trigger] s[i]) by {
                if i > 0 {
                    assert(s[i] == rest[i - 1]);
                }
            }
        }
        if blank(s) {
            assert forall|i: int| 0 <= i < rest.len() implies whitespace(#[trigger] rest[i]) by {
                assert(rest[i] == s[i + 1]);
            }
        }
    } else if s.len() > 0 {
        lemma_trim_end_keeps_first(s);
    }
}

/// `trim_end` never removes a first character that is not whitespace.
proof fn lemma_trim_end_keeps_first(s: Seq<char>)
    requires
        s.len() > 0,
        !whitespace(s.first()),
    ensures
        trim_end(s).len() > 0,
        trim_end(s).first() == s.first(),
    decreases s.len(),
{
    if whitespace(s.last()) {
        let rest = s.drop_last();
        assert(rest.len() > 0);
        assert(rest.first() == s.first());
        lemma_trim_end_keeps_first(rest);
    }
}

/// `trim_end` returns a prefix of its argument that does not end in
/// whitespace.
pub proof fn lemma_trim_end_is_prefix(s: Seq<char>)
    ensures
        trim_end(s).len() <= s.len(),
        trim_end(s) == s.subrange(0, trim_end(s).len() as int),
        trim_end(s).len() > 0 ==> !whitespace(trim_end(s).last()),
    decreases s.len(),
{
    if s.len() > 0 && whitespace(s.last()) {
        let rest = s.drop_last();
        lemma_trim_end_is_prefix(rest);
        assert(rest.subrange(0, trim_end(rest).len() as int) == s.subrange(
            0,
            trim_end(rest).len() as int,
        ));
    } else {
        assert(s.subrange(0, s.len() as int) == s);
    }
}

/// `trim_start` returns a suffix of its argument that does not start with
/// whitespace.
pub proof fn lemma_trim_start_is_suffix(s: Seq<char>)
    ensures
        trim_start(s).len() <= s.len(),
        trim_start(s) == s.subrange(s.len() - trim_start(s).len(), s.len() as int),
        trim_start(s).len() > 0 ==> !whitespace(trim_start(s).first()),
    decreases s.len(),
{
    if s.len() > 0 && whitespace(s.first()) {
        let rest = s.drop_first();
        lemma_trim_start_is_suffix(rest);
        assert(rest.subrange(rest.len() - trim_start(rest).len(), rest.len() as int)
            == s.subrange(s.len() - trim_start(rest).len(), s.len() as int));
    } else {
        assert(s.subrange(0, s.len() as int) == s);
    }
}

/// A trimmed text neither starts nor ends with whitespace.
pub proof fn lemma_trimmed_has_clean_ends(s: Seq<char>)
    ensures
        trimmed(s).len() > 0 ==> !whitespace(trimmed(s).first()) && !whitespace(
            trimmed(s).last(),
        ),
{
    let t = trim_start(s);
    lemma_trim_start_is_suffix(s);
    lemma_trim_end_is_prefix(t);
    if trimmed(s).len() > 0 {
        assert(trimmed(s).first() == t.first());
    }
}

/// Trimming leaves alone a text that neither starts nor ends with whitespace.
pub proof fn lemma_trimmed_of_clean(s: Seq<char>)
    requires
        s.len() > 0 ==> !whitespace(s.first()) && !whitespace(s.last()),
    ensures
        trimmed(s) == s,
{
}

/// Trimming twice is trimming once.
pub proof fn lemma_trimmed_idempotent(s: Seq<char>)
    ensures
        trimmed(trimmed(s)) == trimmed(s),
{
    lemma_trimmed_has_clean_ends(s);
    lemma_trimmed_of_clean(trimmed(s));
}

/// Tells whether `c` is whitespace.
pub fn is_whitespace(c: char) -> (b: bool)
    ensures
        b == whitespace(c),
{
    let n: u32 = c as u32;
    (0x09 <= n && n <= 0x0D) || n == 0x20 || n == 0x85 || n == 0xA0 || n == 0x1680 || (0x2000 <= n
        && n <= 0x200A) || n == 0x2028 || n == 0x2029 || n == 0x202F || n == 0x205F || n == 0x3000
}

/// Tells whether `s` holds nothing but whitespace.
pub fn is_blank(s: &str) -> (b: bool)
    ensures
        b == blank(s@),
{
    let mut all: bool = true;
    for c in it: s.chars()
        invariant
            it.seq() == s@,
            all == blank(s@.take(it.index() as int)),
    {
        proof {
            let k = it.index() as int;
            let shorter = s@.take(k);
            let longer = s@.take(k + 1);
            assert(longer[k] == c);
            if blank(shorter) && whitespace(c) {
                assert forall|i: int| 0 <= i < longer.len() implies whitespace(
                    #[trigger] longer[i],
                ) by {
                    if i < k {
                        assert(longer[i] == shorter[i]);
                    }
                }
            }
            if blank(longer) {
                assert forall|i: int| 0 <= i < shorter.len() implies whitespace(
                    #[trigger] shorter[i],
                ) by {
                    assert(longer[i] == shorter[i]);
                }
            }
        }
        all = all && is_whitespace(c);
    }
    assert(s@.take(s@.len() as int) == s@);
    all
}

/// Copies `s` without the whitespace at either end.
pub fn trim(s: &str) -> (t: String)
    ensures
        t@ == trimmed(s@),
{
    let n: usize = s.unicode_len();
    // `start` counts the whitespace seen before the first other character,
    // `end` is the position after the last other character seen so far.
    let mut start: usize = 0;
    let mut end: usize = 0;
    let mut seen: bool = false;
    let mut i: usize = 0;
    for c in it: s.chars()
        invariant
            it.seq() == s@,
            n == s@.len(),
            i == it.index(),
            i <= n,
            forall|j: int| 0 <= j < start ==> whitespace(#[trigger] s@[j]),
            !seen ==> start == i && end == 0,
            seen ==> start < end <= i && !whitespace(s@[start as int]) && !whitespace(
                s@[end - 1],
            ),
            forall|j: int| seen && end <= j < i ==> whitespace(#[trigger] s@[j]),
    {
        if is_whitespace(c) {
            if !seen {
                start = i + 1;
            }
        } else {
            seen = true;
            end = i + 1;
        }
        i = i + 1;
    }
    let stop: usize = if seen {
        end
    } else {
        start
    };
    proof {
        let rest = s@.subrange(start as int, n as int);
        lemma_trim_start_at(s@, start as int);
        assert forall|j: int| stop - start <= j < rest.len() implies whitespace(
            #[trigger] rest[j],
        ) by {
            assert(rest[j] == s@[j + start]);
        }
        lemma_trim_end_at(rest, stop - start);
        assert(rest.subrange(0, stop - start) == s@.subrange(start as int, stop as int));
    }
    String::from_str(s.substring_char(start, stop))
}

} // verus!
