//! Reading and writing text, character by character.

use vstd::prelude::*;

verus! {

/// `String::push`: appends one character.
pub assume_specification[ String::push ](s: &mut String, c: char)
    ensures
        final(s)@ == old(s)@.push(c),
;

/// The digit `d` of a number in base ten or sixteen, in lower case.
pub open spec fn digit_char(d: nat) -> char {
    if d < 10 {
        (48 + d) as char
    } else {
        (87 + d) as char
    }
}

/// `n` in base `base`, without leading zeros.
pub open spec fn numeral(n: nat, base: nat) -> Seq<char>
    decreases n,
{
    if base < 2 || n < base {
        seq![digit_char(n)]
    } else {
        proof {
            assert(n / base < n) by (nonlinear_arith)
                requires
                    base >= 2,
                    n >= base,
            ;
        }
        numeral(n / base, base).push(digit_char(n % base))
    }
}

/// `n` in decimal.
pub open spec fn decimal(n: nat) -> Seq<char> {
    numeral(n, 10)
}

/// `n` in hexadecimal.
pub open spec fn hexadecimal(n: nat) -> Seq<char> {
    numeral(n, 16)
}

/// The character of one digit.
pub fn digit(d: u8) -> (c: char)
    requires
        d < 16,
    ensures
        c == digit_char(d as nat),
{
    if d < 10 {
        (48 + d) as char
    } else {
        (87 + d) as char
    }
}

/// Appends `n` in decimal.
pub fn push_decimal(out: &mut String, n: u64)
    ensures
        final(out)@ == old(out)@ + decimal(n as nat),
    decreases n,
{
    if n >= 10 {
        push_decimal(out, n / 10);
    }
    out.push(digit((n % 10) as u8));
    proof {
        assert(final(out)@ =~= old(out)@ + decimal(n as nat));
    }
}

/// Appends `n` in hexadecimal.
pub fn push_hexadecimal(out: &mut String, n: u64)
    ensures
        final(out)@ == old(out)@ + hexadecimal(n as nat),
    decreases n,
{
    if n >= 16 {
        push_hexadecimal(out, n / 16);
    }
    out.push(digit((n % 16) as u8));
    proof {
        assert(final(out)@ =~= old(out)@ + hexadecimal(n as nat));
    }
}

/// The characters of a text.
pub fn chars_of(text: &str) -> (v: Vec<char>)
    ensures
        v@ == text@,
{
    let mut v: Vec<char> = Vec::new();
    for c in it: text.chars()
        invariant
            v@ == text@.take(it.index() as int),
            it.seq() == text@,
    {
        v.push(c);
        proof {
            assert(text@.take(it.index() as int + 1) =~= text@.take(it.index() as int).push(c));
        }
    }
    proof {
        assert(text@.take(text@.len() as int) =~= text@);
    }
    v
}

/// The text made of the characters from `from` up to `to`.
pub fn text_of(chars: &[char], from: usize, to: usize) -> (s: String)
    requires
        from <= to <= chars@.len(),
    ensures
        s@ == chars@.subrange(from as int, to as int),
{
    let mut s = String::new();
    let mut i: usize = from;
    while i < to
        invariant
            from <= i <= to <= chars@.len(),
            s@ == chars@.subrange(from as int, i as int),
        decreases to - i,
    {
        s.push(chars[i]);
        proof {
            assert(chars@.subrange(from as int, i + 1) =~= chars@.subrange(
                from as int,
                i as int,
            ).push(chars@[i as int]));
        }
        i += 1;
    }
    s
}

/// Whether two texts are the same.
pub fn same_text(a: &str, b: &str) -> (r: bool)
    ensures
        r == (a@ == b@),
{
    let x = chars_of(a);
    let y = chars_of(b);
    if x.len() != y.len() {
        return false;
    }
    let mut i: usize = 0;
    while i < x.len()
        invariant
            x@.len() == y@.len(),
            i <= x@.len(),
            x@.take(i as int) =~= y@.take(i as int),
            x@ == a@,
            y@ == b@,
        decreases x@.len() - i,
    {
        if x[i] != y[i] {
            return false;
        }
        proof {
            assert(x@.take(i + 1) =~= x@.take(i as int).push(x@[i as int]));
            assert(y@.take(i + 1) =~= y@.take(i as int).push(y@[i as int]));
        }
        i += 1;
    }
    proof {
        assert(x@.take(x@.len() as int) =~= x@);
        assert(y@.take(y@.len() as int) =~= y@);
    }
    true
}

/// A character that separates words: the Unicode property White_Space.
pub open spec fn is_space(c: char) -> bool {
    let u = c as u32;
    ||| 0x09 <= u <= 0x0d
    ||| u == 0x20
    ||| u == 0x85
    ||| u == 0xa0
    ||| u == 0x1680
    ||| 0x2000 <= u <= 0x200a
    ||| u == 0x2028
    ||| u == 0x2029
    ||| u == 0x202f
    ||| u == 0x205f
    ||| u == 0x3000
}

/// The text without trailing white space.
pub open spec fn trim_end(s: Seq<char>) -> Seq<char>
    decreases s.len(),
{
    if s.len() > 0 && is_space(s.last()) {
        trim_end(s.drop_last())
    } else {
        s
    }
}

/// The text without leading white space.
pub open spec fn trim_start(s: Seq<char>) -> Seq<char>
    decreases s.len(),
{
    if s.len() > 0 && is_space(s.first()) {
        trim_start(s.drop_first())
    } else {
        s
    }
}

/// The text without white space at its ends.
pub open spec fn trim(s: Seq<char>) -> Seq<char> {
    trim_end(trim_start(s))
}

/// The longest ending without white space.
pub open spec fn word_suffix(s: Seq<char>) -> Seq<char>
    decreases s.len(),
{
    if s.len() == 0 || is_space(s.last()) {
        Seq::empty()
    } else {
        word_suffix(s.drop_last()).push(s.last())
    }
}

/// The last word, empty when there is none.
pub open spec fn last_word(s: Seq<char>) -> Seq<char> {
    word_suffix(trim_end(s))
}

/// An ASCII letter in lower case; any other character as it is.
pub open spec fn lower(c: char) -> char {
    if 'A' <= c && c <= 'Z' {
        (c as u32 + 32) as char
    } else {
        c
    }
}

/// ASCII letters in lower case.
pub open spec fn lowercase(s: Seq<char>) -> Seq<char> {
    s.map_values(|c: char| lower(c))
}

/// Whether `s` starts with `prefix`.
pub open spec fn starts_with(s: Seq<char>, prefix: Seq<char>) -> bool {
    s.len() >= prefix.len() && s.take(prefix.len() as int) == prefix
}

/// Whether `part` occurs in `s` at `i`.
pub open spec fn occurs_at(s: Seq<char>, part: Seq<char>, i: int) -> bool {
    0 <= i && i + part.len() <= s.len() && s.subrange(i, i + part.len()) == part
}

/// Whether `part` occurs in `s`.
pub open spec fn contains_text(s: Seq<char>, part: Seq<char>) -> bool {
    exists|i: int| occurs_at(s, part, i)
}

/// Number of characters before the first newline, all of them when there is none.
pub open spec fn line_len(s: Seq<char>) -> int
    decreases s.len(),
{
    if s.len() == 0 || s.first() == '\n' {
        0
    } else {
        1 + line_len(s.drop_first())
    }
}

/// The first line without its ending, which is a newline with or without a carriage return.
pub open spec fn first_line(s: Seq<char>) -> Seq<char> {
    let n = line_len(s);
    if 0 < n < s.len() && s[n - 1] == '\r' {
        s.take(n - 1)
    } else {
        s.take(n)
    }
}

/// What follows the first line and its ending.
pub open spec fn after_line(s: Seq<char>) -> Seq<char> {
    let n = line_len(s);
    if n < s.len() {
        s.skip(n + 1)
    } else {
        Seq::empty()
    }
}

/// A line is a part of the text.
pub proof fn lemma_line_len(s: Seq<char>)
    ensures
        0 <= line_len(s) <= s.len(),
        line_len(s) < s.len() ==> s[line_len(s)] == '\n',
        forall|i: int| 0 <= i < line_len(s) ==> s[i] != '\n',
        s.len() > 0 ==> after_line(s).len() < s.len(),
    decreases s.len(),
{
    if s.len() != 0 && s.first() != '\n' {
        lemma_line_len(s.drop_first());
        assert forall|i: int| 0 <= i < line_len(s) implies s[i] != '\n' by {
            if i > 0 {
                assert(s.drop_first()[i - 1] == s[i]);
            }
        }
    }
}

/// All lines of a text.
pub open spec fn lines(s: Seq<char>) -> Seq<Seq<char>>
    decreases s.len(),
{
    if s.len() == 0 {
        Seq::empty()
    } else {
        proof {
            lemma_line_len(s);
        }
        seq![first_line(s)] + lines(after_line(s))
    }
}

/// The texts in a list.
pub open spec fn texts(v: Seq<String>) -> Seq<Seq<char>> {
    v.map_values(|s: String| s@)
}

/// Whether `c` is white space.
pub fn is_whitespace(c: char) -> (b: bool)
    ensures
        b == is_space(c),
{
    let u: u32 = c as u32;
    (0x09 <= u && u <= 0x0d) || u == 0x20 || u == 0x85 || u == 0xa0 || u == 0x1680 || (0x2000 <= u
        && u <= 0x200a) || u == 0x2028 || u == 0x2029 || u == 0x202f || u == 0x205f || u == 0x3000
}

/// Where the characters from `from` up to `to` end without trailing white space.
pub fn trimmed_end(chars: &[char], from: usize, to: usize) -> (e: usize)
    requires
        from <= to <= chars@.len(),
    ensures
        from <= e <= to,
        chars@.subrange(from as int, e as int) == trim_end(
            chars@.subrange(from as int, to as int),
        ),
{
    let mut e: usize = to;
    while e > from && is_whitespace(chars[e - 1])
        invariant
            from <= e <= to <= chars@.len(),
            trim_end(chars@.subrange(from as int, e as int)) == trim_end(
                chars@.subrange(from as int, to as int),
            ),
        ensures
            from <= e <= to,
            chars@.subrange(from as int, e as int) == trim_end(
                chars@.subrange(from as int, to as int),
            ),
        decreases e,
    {
        proof {
            assert(chars@.subrange(from as int, e as int).drop_last() =~= chars@.subrange(
                from as int,
                e - 1,
            ));
        }
        e -= 1;
    }
    e
}

/// Where the characters from `from` up to `to` begin without leading white space.
pub fn trimmed_start(chars: &[char], from: usize, to: usize) -> (b: usize)
    requires
        from <= to <= chars@.len(),
    ensures
        from <= b <= to,
        chars@.subrange(b as int, to as int) == trim_start(
            chars@.subrange(from as int, to as int),
        ),
{
    let mut b: usize = from;
    while b < to && is_whitespace(chars[b])
        invariant
            from <= b <= to <= chars@.len(),
            trim_start(chars@.subrange(b as int, to as int)) == trim_start(
                chars@.subrange(from as int, to as int),
            ),
        ensures
            from <= b <= to,
            chars@.subrange(b as int, to as int) == trim_start(
                chars@.subrange(from as int, to as int),
            ),
        decreases to - b,
    {
        proof {
            assert(chars@.subrange(b as int, to as int).drop_first() =~= chars@.subrange(
                b + 1,
                to as int,
            ));
        }
        b += 1;
    }
    b
}

/// The text without white space at its ends.
pub fn trimmed(text: &str) -> (s: String)
    ensures
        s@ == trim(text@),
{
    let chars = chars_of(text);
    proof {
        assert(chars@.subrange(0, chars@.len() as int) =~= chars@);
    }
    let b: usize = trimmed_start(chars.as_slice(), 0, chars.len());
    let e: usize = trimmed_end(chars.as_slice(), b, chars.len());
    text_of(chars.as_slice(), b, e)
}

/// The last word among the characters from `from` up to `to`.
pub fn last_word_of(chars: &[char], from: usize, to: usize) -> (s: String)
    requires
        from <= to <= chars@.len(),
    ensures
        s@ == last_word(chars@.subrange(from as int, to as int)),
{
    let e: usize = trimmed_end(chars, from, to);
    let mut b: usize = e;
    let ghost t = chars@.subrange(from as int, e as int);
    while b > from && !is_whitespace(chars[b - 1])
        invariant
            from <= b <= e <= to <= chars@.len(),
            t == chars@.subrange(from as int, e as int),
            word_suffix(t) == word_suffix(chars@.subrange(from as int, b as int))
                + chars@.subrange(b as int, e as int),
        ensures
            from <= b <= e,
            word_suffix(t) == chars@.subrange(b as int, e as int),
        decreases b,
    {
        proof {
            let u = chars@.subrange(from as int, b as int);
            assert(u.drop_last() =~= chars@.subrange(from as int, b - 1));
            assert(word_suffix(u) + chars@.subrange(b as int, e as int) =~= word_suffix(
                chars@.subrange(from as int, b - 1),
            ) + chars@.subrange(b - 1, e as int));
        }
        b -= 1;
    }
    text_of(chars, b, e)
}

/// An ASCII letter in lower case.
pub fn to_lower(c: char) -> (r: char)
    ensures
        r == lower(c),
{
    if 'A' <= c && c <= 'Z' {
        ((c as u8) + 32) as char
    } else {
        c
    }
}

/// The text with its ASCII letters in lower case.
pub fn lowered(text: &str) -> (s: String)
    ensures
        s@ == lowercase(text@),
{
    let chars = chars_of(text);
    let mut s = String::new();
    let mut i: usize = 0;
    while i < chars.len()
        invariant
            i <= chars@.len(),
            chars@ == text@,
            s@ == lowercase(text@.take(i as int)),
        decreases chars@.len() - i,
    {
        s.push(to_lower(chars[i]));
        proof {
            assert(text@.take(i + 1) =~= text@.take(i as int).push(text@[i as int]));
            assert(lowercase(text@.take(i + 1)) =~= lowercase(text@.take(i as int)).push(
                lower(text@[i as int]),
            ));
        }
        i += 1;
    }
    proof {
        assert(text@.take(text@.len() as int) =~= text@);
    }
    s
}

/// Whether the characters from `from` up to `to`, in lower case, start with `prefix`.
pub fn lower_starts_with(chars: &[char], from: usize, to: usize, prefix: &str) -> (b: bool)
    requires
        from <= to <= chars@.len(),
    ensures
        b == starts_with(lowercase(chars@.subrange(from as int, to as int)), prefix@),
{
    let p = chars_of(prefix);
    let ghost s = lowercase(chars@.subrange(from as int, to as int));
    if to - from < p.len() {
        return false;
    }
    let mut i: usize = 0;
    while i < p.len()
        invariant
            i <= p@.len() <= to - from,
            to <= chars@.len(),
            s == lowercase(chars@.subrange(from as int, to as int)),
            p@ == prefix@,
            s.take(i as int) == p@.take(i as int),
        decreases p@.len() - i,
    {
        proof {
            assert(s[i as int] == lower(chars@[from + i]));
        }
        if to_lower(chars[from + i]) != p[i] {
            proof {
                assert(s.take(p@.len() as int)[i as int] != p@[i as int]);
            }
            return false;
        }
        proof {
            assert(s.take(i + 1) =~= s.take(i as int).push(s[i as int]));
            assert(p@.take(i + 1) =~= p@.take(i as int).push(p@[i as int]));
        }
        i += 1;
    }
    proof {
        assert(p@.take(p@.len() as int) =~= p@);
    }
    true
}

/// Whether `part` occurs in `chars`.
pub fn contains(chars: &[char], part: &str) -> (b: bool)
    ensures
        b == contains_text(chars@, part@),
{
    let p = chars_of(part);
    let ghost s = chars@;
    if chars.len() < p.len() {
        proof {
            assert forall|i: int| !occurs_at(s, part@, i) by {}
        }
        return false;
    }
    let last: usize = chars.len() - p.len();
    let mut i: usize = 0;
    while i <= last
        invariant
            i <= last + 1,
            last == chars@.len() - p@.len(),
            chars@.len() <= usize::MAX,
            s == chars@,
            p@ == part@,
            forall|k: int| 0 <= k < i ==> !occurs_at(s, part@, k),
        decreases last + 1 - i,
    {
        let mut j: usize = 0;
        while j < p.len() && chars[i + j] == p[j]
            invariant
                i <= last,
                last == chars@.len() - p@.len(),
                chars@.len() <= usize::MAX,
                j <= p@.len(),
                s == chars@,
                p@ == part@,
                forall|k: int| 0 <= k < j ==> s[i + k] == p@[k],
            decreases p@.len() - j,
        {
            j += 1;
        }
        if j == p.len() {
            proof {
                assert(s.subrange(i as int, i + part@.len()) =~= part@);
                assert(occurs_at(s, part@, i as int));
            }
            return true;
        }
        proof {
            if occurs_at(s, part@, i as int) {
                assert(s.subrange(i as int, i + part@.len())[j as int] == p@[j as int]);
            }
        }
        if i == last {
            proof {
                assert forall|k: int| !occurs_at(s, part@, k) by {}
            }
            return false;
        }
        i += 1;
    }
    false
}

/// Where the line that begins at `from` ends: its length, and where the next one begins.
pub fn line_at(chars: &[char], from: usize) -> (r: (usize, usize))
    requires
        from <= chars@.len(),
    ensures
        from <= r.0 <= r.1 <= chars@.len(),
        from < chars@.len() ==> r.1 > from,
        chars@.subrange(from as int, r.0 as int) == first_line(chars@.skip(from as int)),
        chars@.skip(r.1 as int) == after_line(chars@.skip(from as int)),
{
    let ghost s = chars@.skip(from as int);
    let mut n: usize = from;
    while n < chars.len() && chars[n] != '\n'
        invariant
            from <= n <= chars@.len(),
            s == chars@.skip(from as int),
            line_len(s) == (n - from) + line_len(chars@.skip(n as int)),
        ensures
            from <= n <= chars@.len(),
            line_len(s) == n - from,
            n < chars@.len() ==> chars@[n as int] == '\n',
        decreases chars@.len() - n,
    {
        proof {
            assert(chars@.skip(n as int).drop_first() =~= chars@.skip(n + 1));
        }
        n += 1;
    }
    if n < chars.len() {
        if n > from && chars[n - 1] == '\r' {
            proof {
                assert(chars@.subrange(from as int, n - 1) =~= first_line(s));
                assert(chars@.skip(n + 1) =~= after_line(s));
            }
            (n - 1, n + 1)
        } else {
            proof {
                assert(chars@.subrange(from as int, n as int) =~= first_line(s));
                assert(chars@.skip(n + 1) =~= after_line(s));
            }
            (n, n + 1)
        }
    } else {
        proof {
            assert(chars@.subrange(from as int, n as int) =~= first_line(s));
            assert(chars@.skip(n as int) =~= after_line(s));
        }
        (n, n)
    }
}

/// Trimming takes white space from both ends and nothing else: what is left is a part of the text
/// that neither begins nor ends with white space, and what was taken is all white space.
pub proof fn law_trimming_takes_only_space(s: Seq<char>)
    ensures
        trim(s).len() > 0 ==> !is_space(trim(s).first()) && !is_space(trim(s).last()),
        exists|i: int, j: int|
            0 <= i <= j <= s.len() && trim(s) == #[trigger] s.subrange(i, j) && (forall|k: int|
                0 <= k < i ==> is_space(#[trigger] s[k])) && (forall|k: int|
                j <= k < s.len() ==> is_space(#[trigger] s[k])),
{
    let t = trim_start(s);
    lemma_trim_start(s);
    lemma_trim_end(t);
    let i = s.len() - t.len();
    let j = i + trim_end(t).len();
    assert(trim(s) =~= s.subrange(i, j));
    assert forall|k: int| j <= k < s.len() implies is_space(#[trigger] s[k]) by {
        assert(t[k - i] == s[k]);
    }
    if trim(s).len() > 0 {
        assert(trim(s).first() == t.first());
    }
}

proof fn lemma_trim_start(s: Seq<char>)
    ensures
        trim_start(s).len() <= s.len(),
        trim_start(s) == s.skip(s.len() - trim_start(s).len()),
        forall|k: int| 0 <= k < s.len() - trim_start(s).len() ==> is_space(#[trigger] s[k]),
        trim_start(s).len() > 0 ==> !is_space(trim_start(s).first()),
    decreases s.len(),
{
    if s.len() > 0 && is_space(s.first()) {
        let rest = s.drop_first();
        lemma_trim_start(rest);
        assert forall|k: int| 0 <= k < s.len() - trim_start(s).len() implies is_space(
            #[trigger] s[k],
        ) by {
            if k > 0 {
                assert(rest[k - 1] == s[k]);
            }
        }
        assert(s.skip(s.len() - trim_start(s).len()) =~= rest.skip(
            rest.len() - trim_start(rest).len(),
        ));
    } else {
        assert(s.skip(0) =~= s);
    }
}

proof fn lemma_trim_end(s: Seq<char>)
    ensures
        trim_end(s).len() <= s.len(),
        trim_end(s) == s.take(trim_end(s).len() as int),
        forall|k: int| trim_end(s).len() <= k < s.len() ==> is_space(#[trigger] s[k]),
        trim_end(s).len() > 0 ==> !is_space(trim_end(s).last()),
    decreases s.len(),
{
    if s.len() > 0 && is_space(s.last()) {
        let rest = s.drop_last();
        lemma_trim_end(rest);
        assert forall|k: int| trim_end(s).len() <= k < s.len() implies is_space(
            #[trigger] s[k],
        ) by {
            if k < s.len() - 1 {
                assert(rest[k] == s[k]);
            }
        }
        assert(s.take(trim_end(s).len() as int) =~= rest.take(trim_end(rest).len() as int));
    } else {
        assert(s.take(s.len() as int) =~= s);
    }
}

/// Lower case changes capital letters of ASCII and nothing else, one for one.
pub proof fn law_lower_case_keeps_the_rest(s: Seq<char>, i: int)
    requires
        0 <= i < s.len(),
    ensures
        lowercase(s).len() == s.len(),
        !('A' <= s[i] && s[i] <= 'Z') ==> lowercase(s)[i] == s[i],
        'A' <= s[i] && s[i] <= 'Z' ==> lowercase(s)[i] as u32 == s[i] as u32 + 32,
        lowercase(lowercase(s))[i] == lowercase(s)[i],
{
}

/// The last word is what follows the last white space, but for white space at the end.
pub proof fn law_the_last_word_ends_the_text(before: Seq<char>, word: Seq<char>, space: char)
    requires
        word.len() > 0,
        is_space(space),
        forall|i: int| 0 <= i < word.len() ==> !is_space(#[trigger] word[i]),
    ensures
        last_word(before.push(space) + word) == word,
        last_word((before.push(space) + word).push(space)) == word,
{
    let s = before.push(space) + word;
    assert(!is_space(word[word.len() - 1]));
    assert(s.last() == word[word.len() - 1]);
    lemma_word_suffix(before.push(space), word);
    assert(s.push(space).drop_last() =~= s);
    assert(trim_end(s.push(space)) == trim_end(s));
}

proof fn lemma_word_suffix(before: Seq<char>, word: Seq<char>)
    requires
        before.len() > 0,
        is_space(before.last()),
        forall|i: int| 0 <= i < word.len() ==> !is_space(#[trigger] word[i]),
    ensures
        word_suffix(before + word) == word,
    decreases word.len(),
{
    let s = before + word;
    if word.len() > 0 {
        let shorter = word.drop_last();
        assert forall|i: int| 0 <= i < shorter.len() implies !is_space(#[trigger] shorter[i]) by {
            assert(shorter[i] == word[i]);
        }
        lemma_word_suffix(before, shorter);
        assert(s.drop_last() =~= before + shorter);
        assert(s.last() == word[word.len() - 1]);
        assert(word_suffix(s) =~= word);
    } else {
        assert(s =~= before);
        assert(word_suffix(s) =~= word);
    }
}

/// A newline ends a line, a carriage return before it belongs to the ending, and the rest of the
/// text is cut the same way.
pub proof fn law_newlines_end_lines(line: Seq<char>, rest: Seq<char>)
    requires
        forall|i: int| 0 <= i < line.len() ==> #[trigger] line[i] != '\n',
        line.len() > 0 ==> line.last() != '\r',
    ensures
        lines(line.push('\n') + rest) == seq![line] + lines(rest),
        lines(line.push('\r').push('\n') + rest) == seq![line] + lines(rest),
{
    lemma_one_line(line, rest);
    let with_return = line.push('\r');
    assert forall|i: int| 0 <= i < with_return.len() implies #[trigger] with_return[i] != '\n' by {
        if i < line.len() {
            assert(with_return[i] == line[i]);
        }
    }
    lemma_one_line(with_return, rest);
    let a = line.push('\n') + rest;
    let b = with_return.push('\n') + rest;
    assert(a.take(line.len() as int) =~= line);
    assert(b.take(line.len() as int) =~= line);
    assert(a.skip(line.len() as int + 1) =~= rest);
    assert(b.skip(with_return.len() as int + 1) =~= rest);
    if line.len() > 0 {
        assert(a[line.len() - 1] == line.last());
    }
    assert(b[with_return.len() - 1] == '\r');
}

proof fn lemma_one_line(line: Seq<char>, rest: Seq<char>)
    requires
        forall|i: int| 0 <= i < line.len() ==> #[trigger] line[i] != '\n',
    ensures
        line_len(line.push('\n') + rest) == line.len(),
    decreases line.len(),
{
    let s = line.push('\n') + rest;
    if line.len() > 0 {
        let shorter = line.drop_first();
        assert forall|i: int| 0 <= i < shorter.len() implies #[trigger] shorter[i] != '\n' by {
            assert(shorter[i] == line[i + 1]);
        }
        lemma_one_line(shorter, rest);
        assert(s.drop_first() =~= shorter.push('\n') + rest);
        assert(s.first() == line[0]);
    } else {
        assert(s.first() == '\n');
    }
}

/// What is appended occurs in the text, and so does everything that occurred before.
pub proof fn law_appending_keeps_what_occurs(s: Seq<char>, x: Seq<char>)
    ensures
        contains_text(s, s),
        contains_text(s + x, x),
        forall|part: Seq<char>|
            #![trigger contains_text(s + x, part)]
            contains_text(s, part) ==> contains_text(s + x, part),
{
    assert(s.subrange(0, s.len() as int) =~= s);
    assert(occurs_at(s, s, 0));
    assert((s + x).subrange(s.len() as int, (s + x).len() as int) =~= x);
    assert(occurs_at(s + x, x, s.len() as int));
    assert forall|part: Seq<char>|
        #![trigger contains_text(s + x, part)]
        contains_text(s, part) implies contains_text(s + x, part) by {
        let i = choose|i: int| occurs_at(s, part, i);
        assert((s + x).subrange(i, i + part.len()) =~= s.subrange(i, i + part.len()));
        assert(occurs_at(s + x, part, i));
    }
}

} // verus!
