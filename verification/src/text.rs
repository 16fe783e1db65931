//! Strings as sequences of characters: trimming, splitting, and reading and
//! writing decimal numbers.

use vstd::prelude::*;

verus! {

/// `String::push` appends one character.
pub assume_specification[ String::push ](s: &mut String, c: char)
    ensures
        final(s)@ == old(s)@.push(c),
;

/// `String::pop` removes the last character and returns it, or returns `None`
/// and changes nothing where the string is empty.
pub assume_specification[ String::pop ](s: &mut String) -> (r: Option<char>)
    ensures
        old(s)@.len() == 0 ==> r == None::<char> && final(s)@ == old(s)@,
        old(s)@.len() > 0 ==> r == Some(old(s)@.last()) && final(s)@ == old(s)@.drop_last(),
;

/// The Unicode `White_Space` property.
pub open spec fn is_white(c: char) -> bool {
    ||| '\u{9}' <= c <= '\u{d}'
    ||| c == ' '
    ||| c == '\u{85}'
    ||| c == '\u{a0}'
    ||| c == '\u{1680}'
    ||| '\u{2000}' <= c <= '\u{200a}'
    ||| c == '\u{2028}'
    ||| c == '\u{2029}'
    ||| c == '\u{202f}'
    ||| c == '\u{205f}'
    ||| c == '\u{3000}'
}

/// Whether `c` is white space.
pub fn white(c: char) -> (r: bool)
    ensures
        r == is_white(c),
{
    let n: u32 = c as u32;
    (9 <= n && n <= 13) || n == 0x20 || n == 0x85 || n == 0xa0 || n == 0x1680 || (0x2000 <= n && n
        <= 0x200a) || n == 0x2028 || n == 0x2029 || n == 0x202f || n == 0x205f || n == 0x3000
}

/// `s` without its leading white space.
pub open spec fn trim_front(s: Seq<char>) -> Seq<char>
    decreases s.len(),
{
    if s.len() > 0 && is_white(s[0]) {
        trim_front(s.drop_first())
    } else {
        s
    }
}

/// `s` without its trailing white space.
pub open spec fn trim_back(s: Seq<char>) -> Seq<char>
    decreases s.len(),
{
    if s.len() > 0 && is_white(s.last()) {
        trim_back(s.drop_last())
    } else {
        s
    }
}

/// `s` without white space at either end.
pub open spec fn trimmed(s: Seq<char>) -> Seq<char> {
    trim_back(trim_front(s))
}

/// The characters of a string.
pub fn chars_of(s: &str) -> (r: Vec<char>)
    ensures
        r@ == s@,
{
    let mut r: Vec<char> = Vec::new();
    for c in it: s.chars()
        invariant
            it.seq() == s@,
            r@ == s@.take(it.index() as int),
    {
        r.push(c);
        assert(s@.take(it.index() as int + 1) =~= s@.take(it.index() as int).push(c));
    }
    assert(s@.take(s@.len() as int) =~= s@);
    r
}

/// The string of the given characters.
pub fn string_of(chars: &[char]) -> (r: String)
    ensures
        r@ == chars@,
{
    let mut r: String = String::new();
    let mut i: usize = 0;
    while i < chars.len()
        invariant
            i <= chars.len(),
            r@ == chars@.take(i as int),
        decreases chars.len() - i,
    {
        r.push(chars[i]);
        assert(chars@.take(i as int + 1) =~= chars@.take(i as int).push(chars@[i as int]));
        i += 1;
    }
    assert(chars@.take(chars@.len() as int) =~= chars@);
    r
}

/// Removes the white space at both ends of `s`.
pub fn trim(s: &Vec<char>) -> (r: Vec<char>)
    ensures
        r@ == trimmed(s@),
{
    let mut lo: usize = 0;
    assert(s@.skip(0) =~= s@);
    while lo < s.len() && white(s[lo])
        invariant
            lo <= s.len(),
            trim_front(s@) == trim_front(s@.skip(lo as int)),
        decreases s.len() - lo,
    {
        assert(s@.skip(lo as int).drop_first() =~= s@.skip(lo as int + 1));
        lo += 1;
    }
    let mut hi: usize = s.len();
    assert(s@.subrange(lo as int, hi as int) =~= s@.skip(lo as int));
    while lo < hi && white(s[hi - 1])
        invariant
            lo <= hi <= s.len(),
            trimmed(s@) == trim_back(s@.subrange(lo as int, hi as int)),
        decreases hi,
    {
        assert(s@.subrange(lo as int, hi as int).drop_last() =~= s@.subrange(lo as int, hi - 1));
        hi -= 1;
    }
    slice_copy(s, lo, hi)
}

/// The characters of `s` from `lo` up to `hi`.
pub fn slice_copy(s: &Vec<char>, lo: usize, hi: usize) -> (r: Vec<char>)
    requires
        lo <= hi <= s.len(),
    ensures
        r@ == s@.subrange(lo as int, hi as int),
{
    let mut r: Vec<char> = Vec::new();
    let mut i: usize = lo;
    while i < hi
        invariant
            lo <= i <= hi <= s.len(),
            r@ == s@.subrange(lo as int, i as int),
        decreases hi - i,
    {
        r.push(s[i]);
        assert(s@.subrange(lo as int, i as int + 1) =~= s@.subrange(lo as int, i as int).push(
            s@[i as int],
        ));
        i += 1;
    }
    r
}

/// `s` without the run of `c` at its end.
pub open spec fn strip_end(s: Seq<char>, c: char) -> Seq<char>
    decreases s.len(),
{
    if s.len() > 0 && s.last() == c {
        strip_end(s.drop_last(), c)
    } else {
        s
    }
}

/// Removes the run of `c` at the end of `s`.
pub fn trim_end_of(s: &Vec<char>, c: char) -> (r: Vec<char>)
    ensures
        r@ == strip_end(s@, c),
{
    let mut hi: usize = s.len();
    assert(s@.take(hi as int) =~= s@);
    while 0 < hi && s[hi - 1] == c
        invariant
            hi <= s.len(),
            strip_end(s@, c) == strip_end(s@.take(hi as int), c),
        decreases hi,
    {
        assert(s@.take(hi as int).drop_last() =~= s@.take(hi - 1));
        hi -= 1;
    }
    assert(s@.subrange(0, hi as int) =~= s@.take(hi as int));
    slice_copy(s, 0, hi)
}

/// The pieces of `s` between the occurrences of `sep`; one piece where there is
/// none.
pub open spec fn split_on(s: Seq<char>, sep: char) -> Seq<Seq<char>>
    decreases s.len(),
{
    if s.len() == 0 {
        seq![Seq::<char>::empty()]
    } else {
        let before = split_on(s.drop_last(), sep);
        if s.last() == sep {
            before.push(Seq::<char>::empty())
        } else {
            before.drop_last().push(before.last().push(s.last()))
        }
    }
}

/// The character sequences that a vector of character vectors holds.
pub open spec fn pieces(v: Seq<Vec<char>>) -> Seq<Seq<char>> {
    v.map_values(|p: Vec<char>| p@)
}

/// Splits `s` at each `sep`.
pub fn split(s: &Vec<char>, sep: char) -> (r: Vec<Vec<char>>)
    ensures
        pieces(r@) == split_on(s@, sep),
        r.len() > 0,
{
    let mut done: Vec<Vec<char>> = Vec::new();
    let mut cur: Vec<char> = Vec::new();
    let mut i: usize = 0;
    assert(pieces(done@).push(cur@) =~= split_on(s@.take(0), sep));
    while i < s.len()
        invariant
            i <= s.len(),
            pieces(done@).push(cur@) == split_on(s@.take(i as int), sep),
        decreases s.len() - i,
    {
        let c: char = s[i];
        let ghost before = split_on(s@.take(i as int), sep);
        let ghost finished = done@;
        assert(s@.take(i as int + 1).drop_last() =~= s@.take(i as int));
        assert(before.drop_last() =~= pieces(finished));
        if c == sep {
            done.push(cur);
            cur = Vec::new();
            assert(pieces(done@) =~= before);
            assert(pieces(done@).push(cur@) =~= before.push(Seq::<char>::empty()));
        } else {
            cur.push(c);
        }
        i += 1;
    }
    assert(s@.take(s@.len() as int) =~= s@);
    let ghost finished = done@;
    let ghost tail = cur@;
    done.push(cur);
    assert(pieces(done@) =~= pieces(finished).push(tail));
    done
}

/// `s` without one `'\r'` at its end.
pub open spec fn strip_cr(s: Seq<char>) -> Seq<char> {
    if s.len() > 0 && s.last() == '\r' {
        s.drop_last()
    } else {
        s
    }
}

/// The lines of a text. A line ends in `"\n"` or `"\r\n"`, which is not part of
/// it; the last line may lack its ending.
pub open spec fn lines_of(s: Seq<char>) -> Seq<Seq<char>> {
    let parts = split_on(s, '\n');
    let ended = parts.drop_last().map_values(|p: Seq<char>| strip_cr(p));
    if parts.last().len() == 0 {
        ended
    } else {
        ended.push(parts.last())
    }
}

/// Splits a text into its lines.
pub fn lines(s: &Vec<char>) -> (r: Vec<Vec<char>>)
    ensures
        pieces(r@) == lines_of(s@),
{
    let mut parts: Vec<Vec<char>> = split(s, '\n');
    let ghost all = parts@;
    let ghost specs = split_on(s@, '\n');
    assert(specs =~= pieces(all));
    let last: Vec<char> = match parts.pop() {
        Some(p) => p,
        None => Vec::new(),
    };
    assert(last@ == specs.last());
    let mut r: Vec<Vec<char>> = Vec::new();
    let ghost ended = specs.drop_last().map_values(|p: Seq<char>| strip_cr(p));
    let mut i: usize = 0;
    while i < parts.len()
        invariant
            i <= parts.len(),
            specs == pieces(all),
            all.len() > 0,
            parts@ == all.drop_last(),
            ended == specs.drop_last().map_values(|p: Seq<char>| strip_cr(p)),
            pieces(r@) == ended.take(i as int),
        decreases parts.len() - i,
    {
        let ghost before = r@;
        let n: usize = parts[i].len();
        let line: Vec<char> = if n > 0 && parts[i][n - 1] == '\r' {
            slice_copy(&parts[i], 0, n - 1)
        } else {
            slice_copy(&parts[i], 0, n)
        };
        assert(parts@[i as int]@ == specs[i as int]);
        assert(line@ =~= strip_cr(specs[i as int]));
        let ghost text = line@;
        r.push(line);
        assert(pieces(r@) =~= pieces(before).push(text));
        assert(ended.take(i as int + 1) =~= ended.take(i as int).push(ended[i as int]));
        i += 1;
    }
    assert(ended.take(ended.len() as int) =~= ended);
    if last.len() > 0 {
        let ghost before = r@;
        let ghost text = last@;
        r.push(last);
        assert(pieces(r@) =~= pieces(before).push(text));
    }
    r
}

/// The longest suffix of `s` without white space.
pub open spec fn last_word(s: Seq<char>) -> Seq<char>
    decreases s.len(),
{
    if s.len() == 0 || is_white(s.last()) {
        Seq::<char>::empty()
    } else {
        last_word(s.drop_last()).push(s.last())
    }
}

/// Returns the longest suffix of `s` without white space.
pub fn final_word(s: &Vec<char>) -> (r: Vec<char>)
    ensures
        r@ == last_word(s@),
{
    let mut lo: usize = s.len();
    assert(s@.subrange(lo as int, s@.len() as int) =~= Seq::<char>::empty());
    assert(s@.take(lo as int) =~= s@);
    assert(last_word(s@) =~= last_word(s@.take(lo as int)) + s@.skip(lo as int));
    while 0 < lo && !white(s[lo - 1])
        invariant
            lo <= s.len(),
            last_word(s@) == last_word(s@.take(lo as int)) + s@.skip(lo as int),
        decreases lo,
    {
        assert(s@.take(lo as int).drop_last() =~= s@.take(lo - 1));
        assert(last_word(s@.take(lo as int)) + s@.skip(lo as int) =~= last_word(s@.take(lo - 1))
            + s@.skip(lo - 1));
        lo -= 1;
    }
    assert(last_word(s@.take(lo as int)) =~= Seq::<char>::empty());
    assert(s@.skip(lo as int) =~= s@.subrange(lo as int, s@.len() as int));
    slice_copy(s, lo, s.len())
}

/// Whether `s` begins with `p`.
pub open spec fn begins(s: Seq<char>, p: Seq<char>) -> bool {
    p.len() <= s.len() && s.take(p.len() as int) == p
}

/// Whether `p` stands in `s` from position `i` on.
pub open spec fn stands_at(s: Seq<char>, p: Seq<char>, i: int) -> bool {
    0 <= i && i + p.len() <= s.len() && s.subrange(i, i + p.len()) == p
}

/// Whether `p` occurs in `s`.
pub open spec fn occurs(s: Seq<char>, p: Seq<char>) -> bool {
    exists|i: int| stands_at(s, p, i)
}

/// Tests whether `p` stands in `s` from position `at` on.
fn matches_at(s: &Vec<char>, p: &Vec<char>, at: usize) -> (r: bool)
    requires
        at <= s.len(),
    ensures
        r == stands_at(s@, p@, at as int),
{
    if p.len() > s.len() - at {
        return false;
    }
    let mut i: usize = 0;
    while i < p.len()
        invariant
            i <= p.len(),
            at + p.len() <= s.len(),
            forall|j: int| 0 <= j < i ==> s@[at + j] == #[trigger] p@[j],
        decreases p.len() - i,
    {
        if s[at + i] != p[i] {
            assert(s@.subrange(at as int, at + p.len())[i as int] != p@[i as int]);
            return false;
        }
        i += 1;
    }
    assert(s@.subrange(at as int, at + p.len()) =~= p@);
    true
}

/// Tests whether `s` begins with `p`.
pub fn starts_with(s: &Vec<char>, p: &str) -> (r: bool)
    ensures
        r == begins(s@, p@),
{
    let p: Vec<char> = chars_of(p);
    assert(p.len() <= s.len() ==> s@.subrange(0, p@.len() as int) =~= s@.take(p@.len() as int));
    matches_at(s, &p, 0)
}

/// Tests whether `p` occurs in `s`.
pub fn contains(s: &Vec<char>, p: &str) -> (r: bool)
    ensures
        r == occurs(s@, p@),
{
    let pat: Vec<char> = chars_of(p);
    let mut at: usize = 0;
    loop
        invariant
            at <= s.len(),
            pat@ == p@,
            forall|j: int| 0 <= j < at ==> !stands_at(s@, p@, j),
        decreases s.len() - at,
    {
        if matches_at(s, &pat, at) {
            return true;
        }
        if at == s.len() {
            return false;
        }
        at += 1;
    }
}

/// The decimal digit `d`.
pub open spec fn digit(d: nat) -> char {
    (48 + d) as char
}

/// `n` in decimal.
pub open spec fn decimal(n: nat) -> Seq<char>
    decreases n,
{
    if n < 10 {
        seq![digit(n)]
    } else {
        decimal(n / 10).push(digit(n % 10))
    }
}

/// Writes `n` in decimal.
pub fn decimal_string(n: u64) -> (r: String)
    ensures
        r@ == decimal(n as nat),
    decreases n,
{
    let d: u8 = (n % 10) as u8;
    let c: char = (48 + d) as char;
    let mut r: String = if n < 10 {
        String::new()
    } else {
        decimal_string(n / 10)
    };
    r.push(c);
    assert(n < 10 ==> r@ =~= seq![digit(n as nat)]);
    r
}

/// Whether `c` is a decimal digit.
pub open spec fn is_digit(c: char) -> bool {
    '0' <= c <= '9'
}

/// Whether `s` holds decimal digits only.
pub open spec fn all_digits(s: Seq<char>) -> bool {
    forall|i: int| 0 <= i < s.len() ==> is_digit(#[trigger] s[i])
}

/// The number that a sequence of decimal digits writes.
pub open spec fn digits_value(s: Seq<char>) -> nat
    decreases s.len(),
{
    if s.len() == 0 {
        0
    } else {
        digits_value(s.drop_last()) * 10 + (s.last() as nat - 48) as nat
    }
}

/// The number that `s` writes: decimal digits, at least one, behind an optional
/// `'+'`, with a value that fits 64 bits.
pub open spec fn number(s: Seq<char>) -> Option<u64> {
    let digits = if s.len() > 0 && s[0] == '+' {
        s.drop_first()
    } else {
        s
    };
    if digits.len() > 0 && all_digits(digits) && digits_value(digits) <= u64::MAX {
        Some(digits_value(digits) as u64)
    } else {
        None
    }
}

/// A sequence of digits writes no smaller number than one of its prefixes.
proof fn lemma_prefix_value(s: Seq<char>, n: int)
    requires
        0 <= n <= s.len(),
    ensures
        digits_value(s.take(n)) <= digits_value(s),
    decreases s.len() - n,
{
    if n == s.len() {
        assert(s.take(n) =~= s);
    } else {
        lemma_prefix_value(s, n + 1);
        assert(s.take(n + 1).drop_last() =~= s.take(n));
    }
}

/// Reads a decimal number.
pub fn parse_number(s: &Vec<char>) -> (r: Option<u64>)
    ensures
        r == number(s@),
{
    let start: usize = if s.len() > 0 && s[0] == '+' {
        1
    } else {
        0
    };
    let ghost digits = s@.skip(start as int);
    assert(start == 1 ==> digits =~= s@.drop_first());
    assert(start == 0 ==> digits =~= s@);
    if start == s.len() {
        return None;
    }
    let mut value: u64 = 0;
    let mut i: usize = start;
    while i < s.len()
        invariant
            start <= i <= s.len(),
            digits == s@.skip(start as int),
            number(s@) == (if digits.len() > 0 && all_digits(digits) && digits_value(digits)
                <= u64::MAX {
                Some(digits_value(digits) as u64)
            } else {
                None
            }),
            all_digits(digits.take(i - start)),
            value == digits_value(digits.take(i - start)),
        decreases s.len() - i,
    {
        let c: char = s[i];
        assert(digits[i - start] == c);
        if !('0' <= c && c <= '9') {
            return None;
        }
        let d: u64 = (c as u32 - 48) as u64;
        let ghost next = digits.take(i - start + 1);
        assert(next.drop_last() =~= digits.take(i - start));
        proof {
            lemma_prefix_value(digits, i - start + 1);
        }
        if value > (u64::MAX - d) / 10 {
            return None;
        }
        value = value * 10 + d;
        i += 1;
    }
    assert(digits.take(s@.len() - start) =~= digits);
    Some(value)
}

/// The texts that a vector of strings holds.
pub open spec fn texts(v: Seq<String>) -> Seq<Seq<char>> {
    v.map_values(|s: String| s@)
}

/// `a` followed by `b`.
pub fn join(a: &str, b: &str) -> (r: String)
    ensures
        r@ == a@ + b@,
{
    let mut r: String = a.to_string();
    r.append(b);
    r
}

/// Tests two strings for equality.
pub fn same(a: &str, b: &str) -> (r: bool)
    ensures
        r == (a@ == b@),
{
    let x: String = a.to_string();
    let y: String = b.to_string();
    x == y
}

/// The white space characters, by their numbers.
pub proof fn law_white_space(c: char)
    ensures
        is_white(c) <==> {
            let n = c as int;
            ||| n == 9 || n == 10 || n == 11 || n == 12 || n == 13 || n == 32 || n == 133
            ||| n == 160 || n == 5760 || n == 8232 || n == 8233 || n == 8239 || n == 8287
            ||| n == 12288 || 8192 <= n <= 8202
        },
{
}

/// White space in front of a text goes.
proof fn lemma_trim_front(a: Seq<char>, s: Seq<char>)
    requires
        forall|i: int| 0 <= i < a.len() ==> is_white(#[trigger] a[i]),
        s.len() > 0 ==> !is_white(s[0]),
    ensures
        trim_front(a + s) == s,
    decreases a.len(),
{
    if a.len() == 0 {
        assert(a + s =~= s);
    } else {
        lemma_trim_front(a.drop_first(), s);
        assert((a + s).drop_first() =~= a.drop_first() + s);
        assert((a + s)[0] == a[0]);
    }
}

/// White space behind a text goes.
proof fn lemma_trim_back(s: Seq<char>, b: Seq<char>)
    requires
        forall|i: int| 0 <= i < b.len() ==> is_white(#[trigger] b[i]),
        s.len() > 0 ==> !is_white(s.last()),
    ensures
        trim_back(s + b) == s,
    decreases b.len(),
{
    if b.len() == 0 {
        assert(s + b =~= s);
    } else {
        lemma_trim_back(s, b.drop_last());
        assert((s + b).drop_last() =~= s + b.drop_last());
        assert((s + b).last() == b.last());
    }
}

/// Trimming takes the white space off both ends of a text and leaves all between.
pub proof fn law_trim_leaves_the_core(a: Seq<char>, w: Seq<char>, b: Seq<char>)
    requires
        forall|i: int| 0 <= i < a.len() ==> is_white(#[trigger] a[i]),
        forall|i: int| 0 <= i < b.len() ==> is_white(#[trigger] b[i]),
        w.len() > 0 ==> !is_white(w[0]) && !is_white(w.last()),
    ensures
        trimmed(a + w + b) == w,
{
    if w.len() == 0 {
        let all = a + w + b;
        assert forall|i: int| 0 <= i < all.len() implies is_white(#[trigger] all[i]) by {
            if i < a.len() {
                assert(all[i] == a[i]);
            } else {
                assert(all[i] == b[i - a.len()]);
            }
        }
        lemma_trim_front(all, w);
        assert(all + w =~= all);
        assert(trim_back(w) == w);
    } else {
        lemma_trim_front(a, w + b);
        assert(a + w + b =~= a + (w + b));
        assert((w + b)[0] == w[0]);
        lemma_trim_back(w, b);
    }
}

/// What trimming leaves has no white space at either end, and stands in the text with
/// white space on both sides.
pub proof fn law_trim_finds_the_core(s: Seq<char>)
    ensures
        trimmed(s).len() > 0 ==> !is_white(trimmed(s)[0]) && !is_white(trimmed(s).last()),
        exists|lo: int, hi: int|
            #![trigger s.subrange(lo, hi)]
            0 <= lo <= hi <= s.len() && trimmed(s) == s.subrange(lo, hi) && (forall|i: int|
                0 <= i < s.len() && !(lo <= i < hi) ==> is_white(#[trigger] s[i])),
{
    let lo = lemma_front(s);
    let hi = lemma_back(s, lo, s.len() as int);
    assert(s.skip(lo) =~= s.subrange(lo, s.len() as int));
    let w = s.subrange(lo, hi);
    let a = s.take(lo);
    let b = s.skip(hi);
    assert(a + w + b =~= s);
    law_trim_leaves_the_core(a, w, b);
}

/// How many characters of white space a text starts with.
proof fn lemma_front(s: Seq<char>) -> (lo: int)
    ensures
        0 <= lo <= s.len(),
        forall|i: int| 0 <= i < lo ==> is_white(#[trigger] s[i]),
        lo < s.len() ==> !is_white(s[lo]),
    decreases s.len(),
{
    if s.len() > 0 && is_white(s[0]) {
        let rest = s.drop_first();
        let n = lemma_front(rest);
        assert forall|i: int| 0 <= i < n + 1 implies is_white(#[trigger] s[i]) by {
            if i > 0 {
                assert(s[i] == rest[i - 1]);
            }
        }
        assert(n < rest.len() ==> s[n + 1] == rest[n]);
        n + 1
    } else {
        0
    }
}

/// Where the white space starts that `s` has between `lo` and the end.
proof fn lemma_back(s: Seq<char>, lo: int, end: int) -> (hi: int)
    requires
        0 <= lo <= end <= s.len(),
        forall|i: int| end <= i < s.len() ==> is_white(#[trigger] s[i]),
    ensures
        lo <= hi <= s.len(),
        forall|i: int| hi <= i < s.len() ==> is_white(#[trigger] s[i]),
        lo < hi ==> !is_white(s[hi - 1]),
    decreases end - lo,
{
    if lo < end && is_white(s[end - 1]) {
        lemma_back(s, lo, end - 1)
    } else {
        end
    }
}

/// A text without the character `sep` is one piece.
pub proof fn law_split_keeps_whole(a: Seq<char>, sep: char)
    requires
        !a.contains(sep),
    ensures
        split_on(a, sep) == seq![a],
    decreases a.len(),
{
    if a.len() > 0 {
        let rest = a.drop_last();
        assert(!rest.contains(sep)) by {
            if rest.contains(sep) {
                let i = choose|i: int| 0 <= i < rest.len() && rest[i] == sep;
                assert(a[i] == sep);
            }
        }
        law_split_keeps_whole(rest, sep);
        assert(a.last() != sep);
        assert(rest.push(a.last()) =~= a);
        assert(split_on(a, sep) =~= seq![a]);
    } else {
        assert(a =~= Seq::<char>::empty());
    }
}

/// There is always a piece.
proof fn lemma_split_some(s: Seq<char>, sep: char)
    ensures
        split_on(s, sep).len() > 0,
    decreases s.len(),
{
    if s.len() > 0 {
        lemma_split_some(s.drop_last(), sep);
    }
}

/// The text up to the first `sep` is the first piece, and the pieces of what stands
/// behind it follow.
pub proof fn law_split_at_first(a: Seq<char>, sep: char, b: Seq<char>)
    requires
        !a.contains(sep),
    ensures
        split_on(a + seq![sep] + b, sep) == seq![a] + split_on(b, sep),
    decreases b.len(),
{
    let s = a + seq![sep] + b;
    if b.len() == 0 {
        law_split_keeps_whole(a, sep);
        assert(s.drop_last() =~= a);
        assert(s.last() == sep);
        assert(split_on(s, sep) =~= seq![a] + split_on(b, sep));
    } else {
        let rest = b.drop_last();
        law_split_at_first(a, sep, rest);
        lemma_split_some(rest, sep);
        assert(s.drop_last() =~= a + seq![sep] + rest);
        assert(s.last() == b.last());
        assert(split_on(s, sep) =~= seq![a] + split_on(b, sep));
    }
}

/// A text has no lines where it is empty, and one where it has no line ending.
pub proof fn law_line_without_ending(a: Seq<char>)
    requires
        !a.contains('\n'),
    ensures
        lines_of(a) == if a.len() == 0 {
            Seq::<Seq<char>>::empty()
        } else {
            seq![a]
        },
{
    law_split_keeps_whole(a, '\n');
    if a.len() == 0 {
        assert(lines_of(a) =~= Seq::<Seq<char>>::empty());
    } else {
        assert(lines_of(a) =~= seq![a]);
    }
}

/// A line ends in `"\n"` or in `"\r\n"`, which are not part of it, and the lines of
/// what stands behind it follow.
pub proof fn law_line_with_ending(a: Seq<char>, b: Seq<char>)
    requires
        !a.contains('\n'),
    ensures
        a.len() == 0 || a.last() != '\r' ==> lines_of(a + seq!['\n'] + b) == seq![a] + lines_of(b),
        lines_of(a + seq!['\r', '\n'] + b) == seq![a] + lines_of(b),
{
    law_split_at_first(a, '\n', b);
    lemma_split_some(b, '\n');
    let c = a.push('\r');
    assert(!c.contains('\n')) by {
        if c.contains('\n') {
            let i = choose|i: int| 0 <= i < c.len() && c[i] == '\n';
            assert(i < a.len());
            assert(a[i] == '\n');
        }
    }
    law_split_at_first(c, '\n', b);
    assert(a + seq!['\r', '\n'] + b =~= c + seq!['\n'] + b);
    assert(c.drop_last() =~= a);
    let all = a + seq!['\n'] + b;
    if a.len() == 0 || a.last() != '\r' {
        assert(lines_of(all) =~= seq![a] + lines_of(b));
    }
    assert(lines_of(c + seq!['\n'] + b) =~= seq![a] + lines_of(b));
}

/// The lines of two texts, the first of which ends in a line ending, are those of the
/// first and then those of the second.
pub proof fn law_lines_follow_lines(a: Seq<char>, b: Seq<char>)
    ensures
        lines_of(a + seq!['\n'] + b) == lines_of(a + seq!['\n']) + lines_of(b),
    decreases a.len(),
{
    let none = Seq::<char>::empty();
    law_line_without_ending(none);
    if a.contains('\n') {
        let i = lemma_first_of(a, '\n');
        let x = a.take(i);
        let y = a.skip(i + 1);
        lemma_line_ends(x, y + seq!['\n'] + b);
        lemma_line_ends(x, y + seq!['\n']);
        law_lines_follow_lines(y, b);
        assert(a + seq!['\n'] + b =~= x + seq!['\n'] + (y + seq!['\n'] + b));
        assert(a + seq!['\n'] =~= x + seq!['\n'] + (y + seq!['\n']));
        assert(lines_of(a + seq!['\n'] + b) =~= lines_of(a + seq!['\n']) + lines_of(b));
    } else {
        lemma_line_ends(a, b);
        lemma_line_ends(a, none);
        assert(a + seq!['\n'] =~= a + seq!['\n'] + none);
        assert(lines_of(a + seq!['\n'] + b) =~= lines_of(a + seq!['\n']) + lines_of(b));
    }
}

/// The first place of a character in a text.
proof fn lemma_first_of(a: Seq<char>, c: char) -> (i: int)
    requires
        a.contains(c),
    ensures
        0 <= i < a.len(),
        a[i] == c,
        !a.take(i).contains(c),
    decreases a.len(),
{
    let k = choose|k: int| 0 <= k < a.len() && a[k] == c;
    if a.take(k).contains(c) {
        let i = lemma_first_of(a.take(k), c);
        assert(a.take(k).take(i) =~= a.take(i));
        i
    } else {
        k
    }
}

/// The first line of a text that has a line ending.
proof fn lemma_line_ends(x: Seq<char>, rest: Seq<char>)
    requires
        !x.contains('\n'),
    ensures
        lines_of(x + seq!['\n'] + rest) == seq![strip_cr(x)] + lines_of(rest),
{
    if x.len() > 0 && x.last() == '\r' {
        let y = x.drop_last();
        assert(!y.contains('\n')) by {
            if y.contains('\n') {
                let i = choose|i: int| 0 <= i < y.len() && y[i] == '\n';
                assert(x[i] == '\n');
            }
        }
        law_line_with_ending(y, rest);
        assert(y + seq!['\r', '\n'] + rest =~= x + seq!['\n'] + rest);
    } else {
        law_line_with_ending(x, rest);
    }
}

/// The last word of a text is what stands behind its last white space, or all of it
/// where it has none.
pub proof fn law_last_word(a: Seq<char>, c: char, w: Seq<char>)
    requires
        is_white(c),
        forall|i: int| 0 <= i < w.len() ==> !is_white(#[trigger] w[i]),
    ensures
        last_word(a.push(c) + w) == w,
        last_word(w) == w,
    decreases w.len(),
{
    if w.len() == 0 {
        assert(a.push(c) + w =~= a.push(c));
        assert(w =~= Seq::<char>::empty());
    } else {
        let v = w.drop_last();
        law_last_word(a, c, v);
        assert((a.push(c) + w).drop_last() =~= a.push(c) + v);
        assert((a.push(c) + w).last() == w.last());
        assert(v.push(w.last()) =~= w);
    }
}

/// Stripping takes the whole run of a character off the end of a text, and nothing
/// else.
pub proof fn law_strip_end(a: Seq<char>, c: char, b: Seq<char>)
    requires
        a.len() > 0 ==> a.last() != c,
        forall|i: int| 0 <= i < b.len() ==> #[trigger] b[i] == c,
    ensures
        strip_end(a + b, c) == a,
    decreases b.len(),
{
    if b.len() == 0 {
        assert(a + b =~= a);
    } else {
        law_strip_end(a, c, b.drop_last());
        assert((a + b).drop_last() =~= a + b.drop_last());
        assert((a + b).last() == b.last());
    }
}

/// A text begins with `p` exactly where it is `p` with something behind it.
pub proof fn law_begins(p: Seq<char>, b: Seq<char>, s: Seq<char>)
    ensures
        begins(p + b, p),
        begins(s, p) <==> s.len() >= p.len() && p + s.skip(p.len() as int) == s,
        begins(s, p) <==> s.len() >= p.len() && forall|i: int|
            0 <= i < p.len() ==> s[i] == #[trigger] p[i],
{
    assert((p + b).take(p.len() as int) =~= p);
    if begins(s, p) {
        assert(p + s.skip(p.len() as int) =~= s);
        assert forall|i: int| 0 <= i < p.len() implies s[i] == #[trigger] p[i] by {
            assert(s.take(p.len() as int)[i] == p[i]);
        }
    }
    if s.len() >= p.len() && p + s.skip(p.len() as int) == s {
        assert((p + s.skip(p.len() as int)).take(p.len() as int) =~= p);
    }
    if s.len() >= p.len() && forall|i: int| 0 <= i < p.len() ==> s[i] == #[trigger] p[i] {
        assert(s.take(p.len() as int) =~= p);
    }
}

/// A text occurs in another exactly where something stands before and behind it that
/// makes it the other.
pub proof fn law_occurs(a: Seq<char>, p: Seq<char>, b: Seq<char>, s: Seq<char>)
    ensures
        occurs(a + p + b, p),
        occurs(s, p) ==> exists|i: int|
            #![trigger s.take(i)]
            0 <= i && i + p.len() <= s.len() && s == s.take(i) + p + s.skip(i + p.len()),
{
    let all = a + p + b;
    assert(all.subrange(a.len() as int, a.len() as int + p.len()) =~= p);
    assert(stands_at(all, p, a.len() as int));
    if occurs(s, p) {
        let i = choose|i: int| stands_at(s, p, i);
        assert(s =~= s.take(i) + s.subrange(i, i + p.len()) + s.skip(i + p.len()));
    }
}

/// A number below ten is written with its digit, and ten times a number and a digit
/// with the number's digits and that digit.
pub proof fn law_decimal(n: nat, d: nat)
    requires
        d < 10,
    ensures
        decimal(d) == seq!["0123456789"@[d as int]],
        n > 0 ==> decimal(10 * n + d) == decimal(n) + decimal(d),
{
    reveal_strlit("0123456789");
    assert(decimal(d) =~= seq!["0123456789"@[d as int]]);
    if n > 0 {
        assert((10 * n + d) / 10 == n && (10 * n + d) % 10 == d);
        assert(decimal(10 * n + d) =~= decimal(n) + decimal(d));
    }
}

/// Zeros write zero.
proof fn lemma_value_of_zeros(zeros: Seq<char>)
    requires
        forall|i: int| 0 <= i < zeros.len() ==> #[trigger] zeros[i] == '0',
    ensures
        digits_value(zeros) == 0,
    decreases zeros.len(),
{
    if zeros.len() > 0 {
        lemma_value_of_zeros(zeros.drop_last());
        assert(zeros.last() == '0');
    }
}

/// A number is written in digits.
proof fn lemma_digits_of_decimal(n: nat)
    ensures
        decimal(n).len() > 0,
        all_digits(decimal(n)),
    decreases n,
{
    if n >= 10 {
        lemma_digits_of_decimal(n / 10);
    }
}

/// A number's digits write it, also behind zeros.
proof fn lemma_value_of_decimal(zeros: Seq<char>, n: nat)
    requires
        forall|i: int| 0 <= i < zeros.len() ==> #[trigger] zeros[i] == '0',
    ensures
        digits_value(zeros + decimal(n)) == n,
    decreases n,
{
    let s = zeros + decimal(n);
    if n < 10 {
        lemma_value_of_zeros(zeros);
        assert(s.drop_last() =~= zeros);
        assert(s.last() == digit(n));
    } else {
        lemma_value_of_decimal(zeros, n / 10);
        assert(s.drop_last() =~= zeros + decimal(n / 10));
        assert(s.last() == digit(n % 10));
    }
}

/// A number is written in digits, at least one.
pub proof fn law_decimal_is_digits(n: nat)
    ensures
        decimal(n).len() > 0,
        forall|i: int| 0 <= i < decimal(n).len() ==> '0' <= #[trigger] decimal(n)[i] <= '9',
        n > 0 ==> decimal(n)[0] != '0',
    decreases n,
{
    lemma_digits_of_decimal(n);
    assert forall|i: int| 0 <= i < decimal(n).len() implies '0' <= #[trigger] decimal(n)[i]
        <= '9' by {
        assert(is_digit(decimal(n)[i]));
    }
    if n >= 10 {
        law_decimal_is_digits(n / 10);
    }
}

/// A number in decimal is read back, with or without zeros or a plus sign in front of
/// it, exactly where it fits 64 bits.
pub proof fn law_number_is_read_back(zeros: Seq<char>, n: nat)
    requires
        forall|i: int| 0 <= i < zeros.len() ==> #[trigger] zeros[i] == '0',
    ensures
        n <= u64::MAX ==> number(zeros + decimal(n)) == Some(n as u64),
        n <= u64::MAX ==> number(seq!['+'] + zeros + decimal(n)) == Some(n as u64),
        n > u64::MAX ==> number(zeros + decimal(n)) is None,
        n > u64::MAX ==> number(seq!['+'] + zeros + decimal(n)) is None,
{
    lemma_value_of_decimal(zeros, n);
    lemma_digits_of_decimal(n);
    let s = zeros + decimal(n);
    assert(all_digits(s));
    assert(is_digit(s[0]));
    let plus = seq!['+'] + zeros + decimal(n);
    assert(plus.drop_first() =~= s);
    assert(plus[0] == '+');
}

/// What holds anything but digits behind an optional plus sign is no number, nor is
/// what holds no digit.
pub proof fn law_number_is_digits(s: Seq<char>, i: int)
    ensures
        s.len() == 0 ==> number(s) is None,
        s == seq!['+'] ==> number(s) is None,
        0 <= i < s.len() && !('0' <= s[i] <= '9') && (i > 0 || s[i] != '+') ==> number(s) is None,
{
    if 0 <= i < s.len() && !('0' <= s[i] <= '9') && (i > 0 || s[i] != '+') {
        if s[0] == '+' {
            assert(s.drop_first()[i - 1] == s[i]);
        }
    }
}

/// All strings and all pieces are there, in their order.
pub proof fn law_texts_are_whole(v: Seq<String>, p: Seq<Vec<char>>)
    ensures
        texts(v).len() == v.len(),
        forall|i: int| 0 <= i < v.len() ==> #[trigger] texts(v)[i] == v[i]@,
        pieces(p).len() == p.len(),
        forall|i: int| 0 <= i < p.len() ==> #[trigger] pieces(p)[i] == p[i]@,
{
}

} // verus!
