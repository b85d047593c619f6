use vstd::prelude::*;

verus! {

/// The characters of a string slice, in order.
pub fn chars_of(s: &str) -> (v: Vec<char>)
    ensures
        v@ == s@,
{
    let mut v: Vec<char> = Vec::new();
    for c in it: s.chars()
        invariant
            it.seq() == s@,
            v@ == s@.subrange(0, it.index() as int),
    {
        v.push(c);
    }
    v
}

/// What `str::len` reports for a text: the length of its UTF-8 encoding.
pub open spec fn byte_len(s: Seq<char>) -> usize {
    vstd::utf8::encode_utf8(s).len() as usize
}

/// The UTF-8 encoding of a concatenation is the concatenation of the encodings.
pub proof fn lemma_encode_concat(a: Seq<char>, b: Seq<char>)
    ensures
        vstd::utf8::encode_utf8(a + b) == vstd::utf8::encode_utf8(a) + vstd::utf8::encode_utf8(b),
    decreases a.len(),
{
    if a.len() == 0 {
        assert(a + b =~= b);
        assert(vstd::utf8::encode_utf8(a) =~= Seq::<u8>::empty());
        assert(Seq::<u8>::empty() + vstd::utf8::encode_utf8(b) =~= vstd::utf8::encode_utf8(b));
    } else {
        lemma_encode_concat(a.drop_first(), b);
        assert((a + b).drop_first() =~= a.drop_first() + b);
        assert((a + b)[0] == a[0]);
        let e0 = vstd::utf8::encode_scalar(a[0] as u32);
        assert(e0 + (vstd::utf8::encode_utf8(a.drop_first()) + vstd::utf8::encode_utf8(b)) =~= (e0
            + vstd::utf8::encode_utf8(a.drop_first())) + vstd::utf8::encode_utf8(b));
    }
}

/// Appends one character to a string.
///
/// Trusted: calls `String::push`, which std documents as appending the
/// character to the end of the string.
#[verifier::external_body]
pub fn push_char(s: &mut String, c: char)
    ensures
        final(s)@ == old(s)@.push(c),
{
    s.push(c);
}

/// A string holding the given text.
pub fn string_of(t: &str) -> (r: String)
    ensures
        r@ == t@,
{
    t.to_string()
}

/// Appends a string slice to a string.
pub fn push_text(s: &mut String, t: &str)
    ensures
        final(s)@ == old(s)@ + t@,
{
    s.append(t);
}

/// Number of positions of `v` holding `c`.
pub open spec fn occurrences(v: Seq<char>, c: char) -> nat
    decreases v.len(),
{
    if v.len() == 0 {
        0
    } else {
        occurrences(v.drop_last(), c) + if v.last() == c {
            1nat
        } else {
            0nat
        }
    }
}

/// Counts the positions of `v` holding `c`.
pub fn count_char(v: &Vec<char>, c: char) -> (n: usize)
    ensures
        n as nat == occurrences(v@, c),
{
    let mut n: usize = 0;
    let mut i: usize = 0;
    while i < v.len()
        invariant
            i <= v.len(),
            n <= i,
            n as nat == occurrences(v@.subrange(0, i as int), c),
        decreases v.len() - i,
    {
        proof {
            assert(v@.subrange(0, i as int + 1).drop_last() == v@.subrange(0, i as int));
        }
        if v[i] == c {
            n = n + 1;
        }
        i = i + 1;
    }
    proof {
        assert(v@.subrange(0, v.len() as int) == v@);
    }
    n
}


/// A string holding the given characters.
pub fn string_from_chars(v: &Vec<char>, len: usize) -> (r: String)
    requires
        len <= v.len(),
    ensures
        r@ == v@.subrange(0, len as int),
{
    let mut r = String::new();
    let mut i: usize = 0;
    while i < len
        invariant
            len <= v.len(),
            i <= len,
            r@ == v@.subrange(0, i as int),
        decreases len - i,
    {
        push_char(&mut r, v[i]);
        i = i + 1;
    }
    r
}

/// The ASCII upper-case form of a character; other characters unchanged.
pub open spec fn ascii_upper(c: char) -> char {
    if 97 <= (c as int) <= 122 {
        ((c as int) - 32) as char
    } else {
        c
    }
}

/// The ASCII lower-case form of a character; other characters unchanged.
pub open spec fn ascii_lower(c: char) -> char {
    if 65 <= (c as int) <= 90 {
        ((c as int) + 32) as char
    } else {
        c
    }
}

/// Every character is ASCII.
pub open spec fn all_ascii(s: Seq<char>) -> bool {
    forall|i: int| 0 <= i < s.len() ==> (#[trigger] s[i] as int) < 128
}

/// What `str::to_uppercase` returns for a text (Unicode case mapping).
pub uninterp spec fn unicode_uppercase(s: Seq<char>) -> Seq<char>;

/// What `str::to_lowercase` returns for a text (Unicode case mapping).
pub uninterp spec fn unicode_lowercase(s: Seq<char>) -> Seq<char>;

/// Upper-cases a text.
///
/// Trusted: calls `str::to_uppercase`. Its result is named by
/// [`unicode_uppercase`]. Every character maps to one or more characters,
/// so a non-empty text stays non-empty; for an all-ASCII text, Unicode upper-casing maps
/// each of `a`..`z` to `A`..`Z` and keeps every other character.
#[verifier::external_body]
pub fn to_upper(s: &str) -> (r: String)
    ensures
        r@ == unicode_uppercase(s@),
        s@.len() > 0 ==> r@.len() > 0,
        all_ascii(s@) ==> r@ == s@.map_values(|c: char| ascii_upper(c)),
{
    s.to_uppercase()
}

/// Lower-cases a text.
///
/// Trusted: calls `str::to_lowercase`. Its result is named by
/// [`unicode_lowercase`]. Every character maps to one or more characters,
/// so a non-empty text stays non-empty; for an all-ASCII text, Unicode lower-casing maps
/// each of `A`..`Z` to `a`..`z` and keeps every other character.
#[verifier::external_body]
pub fn to_lower(s: &str) -> (r: String)
    ensures
        r@ == unicode_lowercase(s@),
        s@.len() > 0 ==> r@.len() > 0,
        all_ascii(s@) ==> r@ == s@.map_values(|c: char| ascii_lower(c)),
{
    s.to_lowercase()
}

/// Drops a carriage return that ends a line.
pub open spec fn strip_cr(line: Seq<char>) -> Seq<char> {
    if line.len() > 0 && line.last() == '\r' {
        line.drop_last()
    } else {
        line
    }
}

/// Keeps a line only when it is not empty.
pub open spec fn keep_nonempty(acc: Seq<Seq<char>>, line: Seq<char>) -> Seq<Seq<char>> {
    if line.len() > 0 {
        acc.push(line)
    } else {
        acc
    }
}

/// The non-empty lines of `s` from position `i` on, `cur` being the part of
/// the current line read so far and `acc` the lines already complete.
/// Lines end at `\n`; a `\r` just before a `\n` belongs to the line end.
pub open spec fn lines_from(s: Seq<char>, i: int, cur: Seq<char>, acc: Seq<Seq<char>>) -> Seq<Seq<char>>
    decreases s.len() - i,
{
    if i >= s.len() || i < 0 {
        keep_nonempty(acc, cur)
    } else if s[i] == '\n' {
        lines_from(s, i + 1, Seq::empty(), keep_nonempty(acc, strip_cr(cur)))
    } else {
        lines_from(s, i + 1, cur.push(s[i]), acc)
    }
}

/// The non-empty lines of a text, as `text.lines().filter(|l| !l.is_empty())`
/// yields them.
pub open spec fn nonempty_lines(s: Seq<char>) -> Seq<Seq<char>> {
    lines_from(s, 0, Seq::empty(), Seq::empty())
}

/// Splits a text into its non-empty lines.
pub fn split_nonempty_lines(text: &str) -> (lines: Vec<String>)
    ensures
        lines.deep_view() == nonempty_lines(text@),
{
    let mut lines: Vec<String> = Vec::new();
    let mut cur: Vec<char> = Vec::new();
    proof {
        assert(lines.deep_view() =~= Seq::<Seq<char>>::empty());
        assert(cur@ =~= Seq::<char>::empty());
    }
    for c in it: text.chars()
        invariant
            it.seq() == text@,
            0 <= it.index() <= text@.len(),
            nonempty_lines(text@) == lines_from(text@, it.index() as int, cur@, lines.deep_view()),
    {
        let ghost i = it.index() as int;
        assert(text@[i] == c);
        if c == '\n' {
            let n = cur.len();
            let end = if n > 0 && cur[n - 1] == '\r' { n - 1 } else { n };
            let line = string_from_chars(&cur, end);
            proof {
                assert(line@ == strip_cr(cur@));
            }
            if end > 0 {
                let ghost before = lines.deep_view();
                lines.push(line);
                proof {
                    assert(lines.deep_view() == before.push(line@));
                }
            }
            cur = Vec::new();
            proof {
                assert(cur@ == Seq::<char>::empty());
            }
        } else {
            cur.push(c);
        }
    }
    let n = cur.len();
    if n > 0 {
        let line = string_from_chars(&cur, n);
        let ghost before = lines.deep_view();
        lines.push(line);
        proof {
            assert(cur@.subrange(0, n as int) == cur@);
            assert(lines.deep_view() == before.push(line@));
        }
    }
    lines
}


/// The decimal digit character of `d` (`0 <= d < 10`).
pub open spec fn digit_char(d: nat) -> char {
    (48 + d) as char
}

/// The decimal notation of a natural number, without leading zeros.
pub open spec fn decimal(n: nat) -> Seq<char>
    decreases n,
{
    if n < 10 {
        seq![digit_char(n)]
    } else {
        decimal(n / 10).push(digit_char(n % 10))
    }
}

/// The decimal notation of an integer, with a leading `-` when negative.
pub open spec fn signed_decimal(n: int) -> Seq<char> {
    if n < 0 {
        seq!['-'] + decimal((-n) as nat)
    } else {
        decimal(n as nat)
    }
}

/// Writes a natural number in decimal.
pub fn decimal_text(n: u64) -> (r: String)
    ensures
        r@ == decimal(n as nat),
    decreases n,
{
    let d = (n % 10) as u8;
    let c = (48u8 + d) as char;
    if n < 10 {
        let mut r = String::new();
        push_char(&mut r, c);
        proof {
            assert(r@ =~= seq![digit_char(n as nat)]);
        }
        r
    } else {
        let mut r = decimal_text(n / 10);
        push_char(&mut r, c);
        r
    }
}

/// Writes an integer in decimal, with a leading `-` when negative.
pub fn signed_decimal_text(n: i64) -> (r: String)
    ensures
        r@ == signed_decimal(n as int),
{
    if n < 0 {
        let magnitude: u64 = if n == i64::MIN {
            9223372036854775808u64
        } else {
            (-n) as u64
        };
        let mut r = string_of("-");
        let digits = decimal_text(magnitude);
        push_text(&mut r, digits.as_str());
        proof {
            reveal_strlit("-");
            assert(r@ =~= seq!['-'] + decimal((-n) as nat));
        }
        r
    } else {
        decimal_text(n as u64)
    }
}

} // verus!
