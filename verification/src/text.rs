//! Character-level text operations with their mathematical definitions.
//!
//! Everything here works on sequences of Unicode scalar values. Executable
//! functions take a `Vec<char>` (see [`to_chars`]) so that indexing is cheap,
//! and state their result over the `Seq<char>` that the vector holds.

use vstd::prelude::*;
use vstd::string::*;

verus! {

/// Whether `c` has the Unicode property `White_Space`.
pub open spec fn is_space(c: char) -> bool {
    let u = c as u32;
    ||| 0x09 <= u <= 0x0D
    ||| u == 0x20
    ||| u == 0x85
    ||| u == 0xA0
    ||| u == 0x1680
    ||| 0x2000 <= u <= 0x200A
    ||| u == 0x2028
    ||| u == 0x2029
    ||| u == 0x202F
    ||| u == 0x205F
    ||| u == 0x3000
}

/// `c` with the ASCII capitals mapped to their small letters.
pub open spec fn lower(c: char) -> char {
    if 'A' <= c <= 'Z' {
        ((c as u8) + 32) as char
    } else {
        c
    }
}

/// `s` with every character mapped by [`lower`].
pub open spec fn lowered(s: Seq<char>) -> Seq<char> {
    Seq::new(s.len(), |i: int| lower(s[i]))
}

/// The first index at or after `from` that holds no whitespace, or the
/// length of `s` when only whitespace follows.
pub open spec fn skip_spaces(s: Seq<char>, from: int) -> int
    decreases s.len() - from,
{
    if 0 <= from < s.len() && is_space(s[from]) {
        skip_spaces(s, from + 1)
    } else {
        from
    }
}

/// The first index at or after `from` that holds whitespace, or the length
/// of `s` when none follows: the end of the word that starts at `from`.
pub open spec fn skip_word(s: Seq<char>, from: int) -> int
    decreases s.len() - from,
{
    if 0 <= from < s.len() && !is_space(s[from]) {
        skip_word(s, from + 1)
    } else {
        from
    }
}

/// The length of `s.take(upto)` once trailing characters equal to `c` are
/// dropped, never going below `floor`.
pub open spec fn strip_trailing(s: Seq<char>, c: char, floor: int, upto: int) -> int
    decreases upto,
{
    if 0 <= floor < upto <= s.len() && s[upto - 1] == c {
        strip_trailing(s, c, floor, upto - 1)
    } else {
        upto
    }
}

/// The length of `s` once trailing whitespace is dropped.
pub open spec fn trimmed_end(s: Seq<char>, upto: int) -> int
    decreases upto,
{
    if 0 < upto <= s.len() && is_space(s[upto - 1]) {
        trimmed_end(s, upto - 1)
    } else {
        upto
    }
}

/// `s` without leading and trailing whitespace.
pub open spec fn trim(s: Seq<char>) -> Seq<char> {
    let start = skip_spaces(s, 0);
    let end = trimmed_end(s, s.len() as int);
    if start < end {
        s.subrange(start, end)
    } else {
        Seq::empty()
    }
}

/// Whether `needle` stands in `hay` at index `i`.
pub open spec fn occurs_at(hay: Seq<char>, needle: Seq<char>, i: int) -> bool {
    &&& 0 <= i
    &&& i + needle.len() <= hay.len()
    &&& hay.subrange(i, i + needle.len()) == needle
}

/// Whether `needle` stands somewhere in `hay`.
pub open spec fn contains(hay: Seq<char>, needle: Seq<char>) -> bool {
    exists|i: int| occurs_at(hay, needle, i)
}

/// Whether the character `c` stands somewhere in `s`.
pub open spec fn has_char(s: Seq<char>, c: char) -> bool {
    exists|i: int| 0 <= i < s.len() && s[i] == c
}

/// Whether `s` begins with `prefix`.
pub open spec fn starts_with(s: Seq<char>, prefix: Seq<char>) -> bool {
    occurs_at(s, prefix, 0)
}

/// The least index at or after `from` at which `needle` stands in `hay`.
pub open spec fn first_occurrence_from(hay: Seq<char>, needle: Seq<char>, from: int) -> Option<int>
    decreases hay.len() - from,
{
    if from < 0 || from + needle.len() > hay.len() {
        None
    } else if occurs_at(hay, needle, from) {
        Some(from)
    } else if from < hay.len() {
        first_occurrence_from(hay, needle, from + 1)
    } else {
        None
    }
}

/// The least index at which `needle` stands in `hay`.
pub open spec fn first_occurrence(hay: Seq<char>, needle: Seq<char>) -> Option<int> {
    first_occurrence_from(hay, needle, 0)
}

/// What [`first_occurrence_from`] finds is an occurrence, and the first one.
pub proof fn lemma_first_occurrence_from(hay: Seq<char>, needle: Seq<char>, from: int)
    requires
        0 <= from,
    ensures
        match first_occurrence_from(hay, needle, from) {
            Some(i) => from <= i && occurs_at(hay, needle, i) && forall|j: int|
                from <= j < i ==> !occurs_at(hay, needle, j),
            None => forall|j: int| from <= j ==> !occurs_at(hay, needle, j),
        },
    decreases hay.len() - from,
{
    if from + needle.len() > hay.len() {
    } else if occurs_at(hay, needle, from) {
    } else if from < hay.len() {
        lemma_first_occurrence_from(hay, needle, from + 1);
    }
}

/// [`first_occurrence`] finds something exactly when `hay` contains `needle`.
pub proof fn lemma_first_occurrence_contains(hay: Seq<char>, needle: Seq<char>)
    ensures
        first_occurrence(hay, needle) is Some <==> contains(hay, needle),
        first_occurrence(hay, needle) matches Some(i) ==> occurs_at(hay, needle, i),
{
    lemma_first_occurrence_from(hay, needle, 0);
    if contains(hay, needle) {
        let i = choose|i: int| occurs_at(hay, needle, i);
        assert(occurs_at(hay, needle, i));
    }
}

/// [`skip_spaces`] stays within `s`, passes only whitespace and stops at a
/// character that is none.
pub proof fn lemma_skip_spaces(s: Seq<char>, from: int)
    requires
        0 <= from <= s.len(),
    ensures
        from <= skip_spaces(s, from) <= s.len(),
        forall|j: int| from <= j < skip_spaces(s, from) ==> is_space(s[j]),
        skip_spaces(s, from) < s.len() ==> !is_space(s[skip_spaces(s, from)]),
    decreases s.len() - from,
{
    if from < s.len() && is_space(s[from]) {
        lemma_skip_spaces(s, from + 1);
    }
}

/// [`skip_word`] stays within `s`, passes no whitespace and stops at
/// whitespace.
pub proof fn lemma_skip_word(s: Seq<char>, from: int)
    requires
        0 <= from <= s.len(),
    ensures
        from <= skip_word(s, from) <= s.len(),
        forall|j: int| from <= j < skip_word(s, from) ==> !is_space(s[j]),
        skip_word(s, from) < s.len() ==> is_space(s[skip_word(s, from)]),
    decreases s.len() - from,
{
    if from < s.len() && !is_space(s[from]) {
        lemma_skip_word(s, from + 1);
    }
}

/// [`trimmed_end`] stays within `upto`, drops only whitespace and stops
/// after a character that is none.
pub proof fn lemma_trimmed_end(s: Seq<char>, upto: int)
    requires
        0 <= upto <= s.len(),
    ensures
        0 <= trimmed_end(s, upto) <= upto,
        forall|j: int| trimmed_end(s, upto) <= j < upto ==> is_space(s[j]),
        trimmed_end(s, upto) > 0 ==> !is_space(s[trimmed_end(s, upto) - 1]),
    decreases upto,
{
    if 0 < upto && is_space(s[upto - 1]) {
        lemma_trimmed_end(s, upto - 1);
    }
}

/// [`strip_trailing`] stays between `floor` and `upto`, drops only `c` and
/// stops after a character that is not `c`.
pub proof fn lemma_strip_trailing(s: Seq<char>, c: char, floor: int, upto: int)
    requires
        0 <= floor <= upto <= s.len(),
    ensures
        floor <= strip_trailing(s, c, floor, upto) <= upto,
        forall|j: int| strip_trailing(s, c, floor, upto) <= j < upto ==> s[j] == c,
        strip_trailing(s, c, floor, upto) > floor ==> s[strip_trailing(s, c, floor, upto) - 1]
            != c,
    decreases upto,
{
    if floor < upto && s[upto - 1] == c {
        lemma_strip_trailing(s, c, floor, upto - 1);
    }
}

/// A trimmed text neither begins nor ends with whitespace, and trimming it
/// again changes nothing.
pub proof fn lemma_trim(s: Seq<char>)
    ensures
        trim(s).len() > 0 ==> !is_space(trim(s).first()) && !is_space(trim(s).last()),
        trim(trim(s)) == trim(s),
{
    let start = skip_spaces(s, 0);
    let end = trimmed_end(s, s.len() as int);
    lemma_skip_spaces(s, 0);
    lemma_trimmed_end(s, s.len() as int);
    let t = trim(s);
    if t.len() > 0 {
        assert(t.first() == s[start]);
        assert(t.last() == s[end - 1]);
        lemma_untrimmed(t);
    } else {
        assert(trim(t) =~= t);
    }
}

/// A text that neither begins nor ends with whitespace is its own trim.
pub proof fn lemma_untrimmed(s: Seq<char>)
    requires
        s.len() > 0,
        !is_space(s.first()),
        !is_space(s.last()),
    ensures
        trim(s) == s,
{
    assert(skip_spaces(s, 0) == 0);
    assert(trimmed_end(s, s.len() as int) == s.len());
    assert(s.subrange(0, s.len() as int) =~= s);
}

/// Where two texts go on alike, their words end alike: [`skip_word`]
/// passes the same number of characters in both.
pub proof fn lemma_skip_word_shift(s1: Seq<char>, i1: int, s2: Seq<char>, i2: int)
    requires
        0 <= i1 <= s1.len(),
        0 <= i2 <= s2.len(),
        s1.skip(i1) == s2.skip(i2),
    ensures
        skip_word(s1, i1) - i1 == skip_word(s2, i2) - i2,
    decreases s1.len() - i1,
{
    assert(s1.skip(i1).len() == s1.len() - i1);
    assert(s2.skip(i2).len() == s2.len() - i2);
    if i1 < s1.len() {
        assert(s1[i1] == s1.skip(i1)[0]);
        assert(s2[i2] == s2.skip(i2)[0]);
        if !is_space(s1[i1]) {
            assert(s1.skip(i1 + 1) =~= s1.skip(i1).skip(1));
            assert(s2.skip(i2 + 1) =~= s2.skip(i2).skip(1));
            lemma_skip_word_shift(s1, i1 + 1, s2, i2 + 1);
        }
    }
}

/// Where two texts hold the same characters between their floors and
/// ends, [`strip_trailing`] drops the same number of characters in both.
pub proof fn lemma_strip_trailing_shift(
    s1: Seq<char>,
    floor1: int,
    upto1: int,
    s2: Seq<char>,
    floor2: int,
    upto2: int,
    c: char,
)
    requires
        0 <= floor1 <= upto1 <= s1.len(),
        0 <= floor2 <= upto2 <= s2.len(),
        s1.subrange(floor1, upto1) == s2.subrange(floor2, upto2),
    ensures
        strip_trailing(s1, c, floor1, upto1) - floor1 == strip_trailing(s2, c, floor2, upto2)
            - floor2,
    decreases upto1 - floor1,
{
    assert(s1.subrange(floor1, upto1).len() == upto1 - floor1);
    assert(s2.subrange(floor2, upto2).len() == upto2 - floor2);
    if floor1 < upto1 {
        assert(s1[upto1 - 1] == s1.subrange(floor1, upto1)[upto1 - 1 - floor1]);
        assert(s2[upto2 - 1] == s2.subrange(floor2, upto2)[upto2 - 1 - floor2]);
        if s1[upto1 - 1] == c {
            assert(s1.subrange(floor1, upto1 - 1) =~= s1.subrange(floor1, upto1).drop_last());
            assert(s2.subrange(floor2, upto2 - 1) =~= s2.subrange(floor2, upto2).drop_last());
            lemma_strip_trailing_shift(s1, floor1, upto1 - 1, s2, floor2, upto2 - 1, c);
        }
    }
}

/// The decimal digit for `d`.
pub open spec fn digit(d: int) -> char
    recommends
        0 <= d < 10,
{
    ((48 + d) as u8) as char
}

/// `n` in decimal, without leading zeros.
pub open spec fn decimal(n: nat) -> Seq<char>
    decreases n,
{
    if n < 10 {
        seq![digit(n as int)]
    } else {
        decimal(n / 10).push(digit((n % 10) as int))
    }
}

/// Appends `n` in decimal to `out`.
pub fn push_decimal(out: &mut String, n: u64)
    ensures
        final(out)@ == old(out)@ + decimal(n as nat),
    decreases n,
{
    if n >= 10 {
        push_decimal(out, n / 10);
    }
    let d: u8 = (n % 10) as u8;
    push_char(out, (48 + d) as char);
    assert(out@ =~= old(out)@ + decimal(n as nat));
}

/// Whether `c` is whitespace.
pub fn is_whitespace(c: char) -> (r: bool)
    ensures
        r == is_space(c),
{
    let u: u32 = c as u32;
    (0x09 <= u && u <= 0x0D) || u == 0x20 || u == 0x85 || u == 0xA0 || u == 0x1680 || (0x2000 <= u
        && u <= 0x200A) || u == 0x2028 || u == 0x2029 || u == 0x202F || u == 0x205F || u == 0x3000
}

/// `c` in lower case, as far as ASCII goes.
pub fn to_lower(c: char) -> (r: char)
    ensures
        r == lower(c),
{
    if 'A' <= c && c <= 'Z' {
        ((c as u8) + 32) as char
    } else {
        c
    }
}

/// The characters of `s`, one element each.
pub fn to_chars(s: &str) -> (v: Vec<char>)
    ensures
        v@ == s@,
{
    let mut v: Vec<char> = Vec::new();
    for c in it: s.chars()
        invariant
            v@ == it.seq().take(it.index() as int),
            it.seq() == s@,
    {
        v.push(c);
    }
    v
}

/// Appends one character to a string: `String::push` of the standard
/// library, which adds `c` at the end and changes nothing else.
#[verifier::external_body]
pub(crate) fn push_char(out: &mut String, c: char)
    ensures
        final(out)@ == old(out)@.push(c),
{
    out.push(c)
}

/// Appends the characters `v[from..to]` to `out`.
pub fn push_range(out: &mut String, v: &Vec<char>, from: usize, to: usize)
    requires
        from <= to <= v.len(),
    ensures
        final(out)@ == old(out)@ + v@.subrange(from as int, to as int),
{
    let mut i: usize = from;
    while i < to
        invariant
            from <= i <= to <= v.len(),
            out@ == old(out)@ + v@.subrange(from as int, i as int),
        decreases to - i,
    {
        push_char(out, v[i]);
        i += 1;
    }
}

/// The string that holds the characters `v[from..to]`.
pub fn string_of(v: &Vec<char>, from: usize, to: usize) -> (s: String)
    requires
        from <= to <= v.len(),
    ensures
        s@ == v@.subrange(from as int, to as int),
{
    let mut s = String::new();
    push_range(&mut s, v, from, to);
    s
}

/// `v` with every character in lower case, as far as ASCII goes.
pub fn to_lowered(v: &Vec<char>) -> (r: Vec<char>)
    ensures
        r@ == lowered(v@),
{
    let mut r: Vec<char> = Vec::new();
    let mut i: usize = 0;
    while i < v.len()
        invariant
            i <= v.len(),
            r@ == lowered(v@).take(i as int),
        decreases v.len() - i,
    {
        r.push(to_lower(v[i]));
        i += 1;
    }
    r
}

/// The first index at or after `from` that holds no whitespace.
pub fn skip_spaces_from(v: &Vec<char>, from: usize) -> (r: usize)
    requires
        from <= v.len(),
    ensures
        r == skip_spaces(v@, from as int),
        from <= r <= v.len(),
{
    let mut i: usize = from;
    while i < v.len() && is_whitespace(v[i])
        invariant
            from <= i <= v.len(),
            skip_spaces(v@, from as int) == skip_spaces(v@, i as int),
        decreases v.len() - i,
    {
        i += 1;
    }
    i
}

/// The first index at or after `from` that holds whitespace.
pub fn skip_word_from(v: &Vec<char>, from: usize) -> (r: usize)
    requires
        from <= v.len(),
    ensures
        r == skip_word(v@, from as int),
        from <= r <= v.len(),
{
    let mut i: usize = from;
    while i < v.len() && !is_whitespace(v[i])
        invariant
            from <= i <= v.len(),
            skip_word(v@, from as int) == skip_word(v@, i as int),
        decreases v.len() - i,
    {
        i += 1;
    }
    i
}

/// The length of `v` without its trailing whitespace.
pub fn trimmed_end_of(v: &Vec<char>) -> (r: usize)
    ensures
        r == trimmed_end(v@, v@.len() as int),
        r <= v.len(),
{
    let mut i: usize = v.len();
    while i > 0 && is_whitespace(v[i - 1])
        invariant
            i <= v.len(),
            trimmed_end(v@, v@.len() as int) == trimmed_end(v@, i as int),
        decreases i,
    {
        i -= 1;
    }
    i
}

/// The end of `v[floor..upto]` once trailing characters equal to `c` are
/// dropped.
pub fn strip_trailing_of(v: &Vec<char>, c: char, floor: usize, upto: usize) -> (r: usize)
    requires
        floor <= upto <= v.len(),
    ensures
        r == strip_trailing(v@, c, floor as int, upto as int),
        floor <= r <= upto,
{
    let mut i: usize = upto;
    while i > floor && v[i - 1] == c
        invariant
            floor <= i <= upto <= v.len(),
            strip_trailing(v@, c, floor as int, upto as int) == strip_trailing(
                v@,
                c,
                floor as int,
                i as int,
            ),
        decreases i,
    {
        i -= 1;
    }
    i
}

/// The characters of `s` without leading and trailing whitespace.
pub fn trimmed_chars(s: &str) -> (r: Vec<char>)
    ensures
        r@ == trim(s@),
{
    let v = to_chars(s);
    let start = skip_spaces_from(&v, 0);
    let end = trimmed_end_of(&v);
    let mut r: Vec<char> = Vec::new();
    if start < end {
        let mut i: usize = start;
        while i < end
            invariant
                start <= i <= end <= v.len(),
                r@ == v@.subrange(start as int, i as int),
            decreases end - i,
        {
            r.push(v[i]);
            i += 1;
        }
    }
    r
}

/// Whether `needle` stands in `hay` at index `i`.
pub fn matches_at(hay: &Vec<char>, needle: &Vec<char>, i: usize) -> (r: bool)
    ensures
        r == occurs_at(hay@, needle@, i as int),
{
    if needle.len() > hay.len() || i > hay.len() - needle.len() {
        return false;
    }
    let mut k: usize = 0;
    while k < needle.len()
        invariant
            k <= needle.len(),
            i + needle.len() <= hay.len(),
            forall|j: int| 0 <= j < k ==> hay@[i + j] == needle@[j],
        decreases needle.len() - k,
    {
        if hay[i + k] != needle[k] {
            assert(hay@.subrange(i as int, i + needle.len())[k as int] == hay@[i + k]);
            return false;
        }
        k += 1;
    }
    assert(hay@.subrange(i as int, i + needle.len()) =~= needle@);
    true
}

/// The least index at which `needle` stands in `hay`.
pub fn find(hay: &Vec<char>, needle: &Vec<char>) -> (r: Option<usize>)
    ensures
        match r {
            Some(i) => first_occurrence(hay@, needle@) == Some(i as int),
            None => first_occurrence(hay@, needle@) is None,
        },
        r is Some <==> contains(hay@, needle@),
{
    proof {
        lemma_first_occurrence_contains(hay@, needle@);
    }
    if needle.len() > hay.len() {
        return None;
    }
    let last: usize = hay.len() - needle.len();
    let mut i: usize = 0;
    loop
        invariant
            i <= last,
            last == hay.len() - needle.len(),
            first_occurrence(hay@, needle@) == first_occurrence_from(hay@, needle@, i as int),
            first_occurrence(hay@, needle@) is Some <==> contains(hay@, needle@),
        decreases last - i,
    {
        if matches_at(hay, needle, i) {
            return Some(i);
        }
        if i == last {
            assert(first_occurrence_from(hay@, needle@, i + 1) is None);
            return None;
        }
        i += 1;
    }
}

/// Whether `needle` stands somewhere in `hay`.
pub fn has(hay: &Vec<char>, needle: &Vec<char>) -> (r: bool)
    ensures
        r == contains(hay@, needle@),
{
    find(hay, needle).is_some()
}

} // verus!
