//! Character-level text operations used by the engines: substring search,
//! whitespace detection, ASCII lower-casing, replacement and prefix trimming.
//! Every operation works on the `Seq<char>` view of Rust strings.
use vstd::prelude::*;

verus! {

/// `pattern` occurs in `text` at character position `i`.
pub open spec fn occurs_at(text: Seq<char>, pattern: Seq<char>, i: int) -> bool {
    &&& 0 <= i
    &&& i + pattern.len() <= text.len()
    &&& text.subrange(i, i + pattern.len()) == pattern
}

/// `pattern` occurs somewhere in `text` (what `str::contains` answers).
pub open spec fn contains_seq(text: Seq<char>, pattern: Seq<char>) -> bool {
    exists|i: int| occurs_at(text, pattern, i)
}

/// `text` begins with `pattern`.
pub open spec fn starts_with_seq(text: Seq<char>, pattern: Seq<char>) -> bool {
    occurs_at(text, pattern, 0)
}

/// The Unicode `White_Space` property, the set of characters that
/// `str::trim` removes.
pub open spec fn is_white_space(c: char) -> bool {
    let u = c as u32;
    ||| 0x09 <= u <= 0x0d
    ||| u == 0x20
    ||| u == 0x85
    ||| u == 0xa0
    ||| u == 0x1680
    ||| 0x2000 <= u <= 0x200a
    ||| u == 0x2028
    ||| u == 0x2029
    ||| u == 0x202f
    ||| u == 0x205f
    ||| u == 0x3000
}

/// `text` is not empty and holds nothing but whitespace: what
/// `!text.is_empty() && text.trim().is_empty()` answers.
pub open spec fn is_blank(text: Seq<char>) -> bool {
    &&& text.len() > 0
    &&& forall|i: int| 0 <= i < text.len() ==> #[trigger] is_white_space(text[i])
}

/// ASCII lower-casing of one character; every other character is unchanged.
pub open spec fn ascii_lower(c: char) -> char {
    if 'A' <= c <= 'Z' {
        ((c as u32) + 32) as char
    } else {
        c
    }
}

/// ASCII lower-casing of a whole text, as `str::to_ascii_lowercase` does.
pub open spec fn ascii_lower_seq(text: Seq<char>) -> Seq<char> {
    text.map_values(|c: char| ascii_lower(c))
}

/// Replaces every occurrence of `from` by `to`, scanning from the left and
/// never letting two replaced occurrences overlap, as `str::replace` does
/// for a non-empty pattern.
pub open spec fn replace_all(text: Seq<char>, from: Seq<char>, to: Seq<char>) -> Seq<char>
    decreases text.len(),
{
    if from.len() == 0 || text.len() < from.len() {
        text
    } else if text.take(from.len() as int) == from {
        to + replace_all(text.skip(from.len() as int), from, to)
    } else {
        seq![text[0]] + replace_all(text.skip(1), from, to)
    }
}

/// Removes `pattern` from the front of `text` as many times as it occurs
/// there back to back, as `str::trim_start_matches` does for a non-empty
/// pattern.
pub open spec fn trim_start_all(text: Seq<char>, pattern: Seq<char>) -> Seq<char>
    decreases text.len(),
{
    if pattern.len() > 0 && starts_with_seq(text, pattern) {
        trim_start_all(text.skip(pattern.len() as int), pattern)
    } else {
        text
    }
}

/// Appends one character to a string (`String::push`).
#[verifier::external_body]
fn string_push(s: &mut String, c: char)
    ensures
        final(s)@ == old(s)@.push(c),
{
    s.push(c);
}

/// The characters of `s`, in order.
pub fn chars_of(s: &str) -> (v: Vec<char>)
    ensures
        v@ == s@,
{
    let n: usize = s.unicode_len();
    let mut v: Vec<char> = Vec::new();
    let mut i: usize = 0;
    while i < n
        invariant
            n == s@.len(),
            i <= n,
            v@ == s@.take(i as int),
        decreases n - i,
    {
        let c = s.get_char(i);
        v.push(c);
        i += 1;
        assert(v@ =~= s@.take(i as int));
    }
    assert(v@ =~= s@);
    v
}

/// The string whose characters are `chars`.
pub fn string_from_chars(chars: &Vec<char>) -> (s: String)
    ensures
        s@ == chars@,
{
    let mut s = String::new();
    let mut i: usize = 0;
    while i < chars.len()
        invariant
            i <= chars.len(),
            s@ == chars@.take(i as int),
        decreases chars.len() - i,
    {
        string_push(&mut s, chars[i]);
        i += 1;
        assert(s@ =~= chars@.take(i as int));
    }
    assert(s@ =~= chars@);
    s
}

/// Whether `pattern` occurs in `text` at position `i`.
pub fn matches_at(text: &Vec<char>, pattern: &Vec<char>, i: usize) -> (b: bool)
    ensures
        b == occurs_at(text@, pattern@, i as int),
{
    if i > text.len() || pattern.len() > text.len() - i {
        return false;
    }
    let mut j: usize = 0;
    while j < pattern.len()
        invariant
            i + pattern.len() <= text.len(),
            j <= pattern.len(),
            forall|m: int| 0 <= m < j ==> text@[i + m] == pattern@[m],
        decreases pattern.len() - j,
    {
        if text[i + j] != pattern[j] {
            assert(text@.subrange(i as int, i + pattern.len())[j as int] != pattern@[j as int]);
            return false;
        }
        j += 1;
    }
    assert(text@.subrange(i as int, i + pattern.len()) =~= pattern@);
    true
}

/// Whether `pattern` occurs anywhere in `text`.
pub fn contains_chars(text: &Vec<char>, pattern: &Vec<char>) -> (b: bool)
    ensures
        b == contains_seq(text@, pattern@),
{
    if pattern.len() > text.len() {
        return false;
    }
    let last: usize = text.len() - pattern.len();
    let mut i: usize = 0;
    loop
        invariant
            last == text.len() - pattern.len(),
            i <= last,
            forall|k: int| 0 <= k < i ==> !occurs_at(text@, pattern@, k),
        decreases last - i,
    {
        if matches_at(text, pattern, i) {
            return true;
        }
        if i == last {
            return false;
        }
        i += 1;
    }
}

/// Whether `pattern` occurs anywhere in `text` (`str::contains`).
pub fn str_contains(text: &str, pattern: &str) -> (b: bool)
    ensures
        b == contains_seq(text@, pattern@),
{
    let t = chars_of(text);
    let p = chars_of(pattern);
    contains_chars(&t, &p)
}

/// Whether `c` has the Unicode `White_Space` property (`char::is_whitespace`).
pub fn is_white_space_char(c: char) -> (b: bool)
    ensures
        b == is_white_space(c),
{
    let u: u32 = c as u32;
    (0x09 <= u && u <= 0x0d) || u == 0x20 || u == 0x85 || u == 0xa0 || u == 0x1680 || (0x2000
        <= u && u <= 0x200a) || u == 0x2028 || u == 0x2029 || u == 0x202f || u == 0x205f || u
        == 0x3000
}

/// Whether `text` is non-empty and made only of whitespace.
pub fn str_is_blank(text: &str) -> (b: bool)
    ensures
        b == is_blank(text@),
{
    let t = chars_of(text);
    if t.len() == 0 {
        return false;
    }
    let mut i: usize = 0;
    while i < t.len()
        invariant
            t@ == text@,
            i <= t.len(),
            forall|k: int| 0 <= k < i ==> #[trigger] is_white_space(t@[k]),
        decreases t.len() - i,
    {
        if !is_white_space_char(t[i]) {
            return false;
        }
        i += 1;
    }
    true
}

/// ASCII lower-casing of one character.
pub fn ascii_lower_char(c: char) -> (r: char)
    ensures
        r == ascii_lower(c),
{
    if 'A' <= c && c <= 'Z' {
        let u: u32 = (c as u32) + 32;
        let l: u8 = u as u8;
        assert(l as char == (u as char)) by {
            assert(0x61 <= u <= 0x7a);
        }
        l as char
    } else {
        c
    }
}

/// The characters of `text`, ASCII lower-cased.
pub fn ascii_lower_chars(text: &Vec<char>) -> (r: Vec<char>)
    ensures
        r@ == ascii_lower_seq(text@),
{
    let mut r: Vec<char> = Vec::new();
    let mut i: usize = 0;
    while i < text.len()
        invariant
            i <= text.len(),
            r@ == ascii_lower_seq(text@.take(i as int)),
        decreases text.len() - i,
    {
        r.push(ascii_lower_char(text[i]));
        i += 1;
        assert(r@ =~= ascii_lower_seq(text@.take(i as int)));
    }
    assert(text@.take(text.len() as int) =~= text@);
    r
}

proof fn lemma_skip_take(text: Seq<char>, i: int, n: int)
    requires
        0 <= i,
        0 <= n,
        i + n <= text.len(),
    ensures
        text.skip(i).take(n) == text.subrange(i, i + n),
        text.skip(i).skip(n) == text.skip(i + n),
{
    assert(text.skip(i).take(n) =~= text.subrange(i, i + n));
    assert(text.skip(i).skip(n) =~= text.skip(i + n));
}

/// Replaces every occurrence of `from` in `text` by `to`, left to right.
pub fn replace_chars(text: &Vec<char>, from: &Vec<char>, to: &Vec<char>) -> (r: Vec<char>)
    requires
        from@.len() > 0,
    ensures
        r@ == replace_all(text@, from@, to@),
{
    let mut out: Vec<char> = Vec::new();
    let mut i: usize = 0;
    assert(text@.skip(0) =~= text@);
    while i < text.len()
        invariant
            from@.len() > 0,
            i <= text.len(),
            out@ + replace_all(text@.skip(i as int), from@, to@) == replace_all(text@, from@, to@),
        decreases text.len() - i,
    {
        let ghost rest = text@.skip(i as int);
        if matches_at(text, from, i) {
            proof {
                lemma_skip_take(text@, i as int, from@.len() as int);
            }
            let mut k: usize = 0;
            let ghost before = out@;
            while k < to.len()
                invariant
                    k <= to.len(),
                    out@ == before + to@.take(k as int),
                decreases to.len() - k,
            {
                out.push(to[k]);
                k += 1;
                assert(out@ =~= before + to@.take(k as int));
            }
            assert(to@.take(to.len() as int) =~= to@);
            assert(out@ + replace_all(text@.skip(i + from.len()), from@, to@) =~= before + (to@
                + replace_all(rest.skip(from@.len() as int), from@, to@)));
            i += from.len();
        } else {
            proof {
                if rest.len() >= from@.len() {
                    lemma_skip_take(text@, i as int, from@.len() as int);
                }
                assert(rest.skip(1) =~= text@.skip(i + 1));
                if rest.len() < from@.len() {
                    assert(rest =~= seq![rest[0]] + rest.skip(1));
                }
            }
            let ghost before = out@;
            out.push(text[i]);
            assert(out@ + replace_all(text@.skip(i + 1), from@, to@) =~= before + (seq![rest[0]]
                + replace_all(rest.skip(1), from@, to@)));
            i += 1;
        }
    }
    assert(text@.skip(text.len() as int) =~= Seq::<char>::empty());
    assert(out@ + Seq::<char>::empty() =~= out@);
    out
}

/// Removes every back-to-back copy of `pattern` from the front of `text`.
pub fn trim_start_chars(text: &Vec<char>, pattern: &Vec<char>) -> (r: Vec<char>)
    requires
        pattern@.len() > 0,
    ensures
        r@ == trim_start_all(text@, pattern@),
{
    let mut i: usize = 0;
    assert(text@.skip(0) =~= text@);
    while matches_at(text, pattern, i)
        invariant
            pattern@.len() > 0,
            i <= text.len(),
            trim_start_all(text@.skip(i as int), pattern@) == trim_start_all(text@, pattern@),
        decreases text.len() - i,
    {
        proof {
            lemma_skip_take(text@, i as int, pattern@.len() as int);
            assert(text@.skip(i as int).subrange(0, pattern@.len() as int) =~= text@.subrange(
                i as int,
                i + pattern@.len(),
            ));
        }
        i += pattern.len();
    }
    let mut r: Vec<char> = Vec::new();
    let mut j: usize = i;
    proof {
        let rest = text@.skip(i as int);
        if starts_with_seq(rest, pattern@) {
            assert(text@.subrange(i as int, i + pattern@.len()) =~= rest.subrange(
                0,
                pattern@.len() as int,
            ));
        }
    }
    while j < text.len()
        invariant
            i <= j <= text.len(),
            r@ == text@.subrange(i as int, j as int),
        decreases text.len() - j,
    {
        r.push(text[j]);
        j += 1;
        assert(r@ =~= text@.subrange(i as int, j as int));
    }
    assert(r@ =~= text@.skip(i as int));
    r
}

} // verus!
