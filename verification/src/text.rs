//! Text handling on `str` and `String`, stated over sequences of characters.
use vstd::prelude::*;
use vstd::string::*;

verus! {

broadcast use vstd::seq::group_seq_axioms;

/// `String::push` appends one character to the end of the string.
pub assume_specification[ String::push ](s: &mut String, c: char)
    ensures
        final(s)@ == old(s)@.push(c),
;

/// `String::pop` removes the last character and returns it; an empty string stays empty and
/// gives `None`.
pub assume_specification[ String::pop ](s: &mut String) -> (c: Option<char>)
    ensures
        old(s)@.len() == 0 ==> c is None && final(s)@ == old(s)@,
        old(s)@.len() > 0 ==> c == Some(old(s)@.last()) && final(s)@ == old(s)@.drop_last(),
;

// ---------------------------------------------------------------------------------------------
// What the operations mean
// ---------------------------------------------------------------------------------------------

/// The characters with the Unicode property `White_Space`.
pub open spec fn white_space(c: char) -> bool {
    let n = c as u32;
    ||| 0x09 <= n <= 0x0d
    ||| n == 0x20
    ||| n == 0x85
    ||| n == 0xa0
    ||| n == 0x1680
    ||| 0x2000 <= n <= 0x200a
    ||| n == 0x2028
    ||| n == 0x2029
    ||| n == 0x202f
    ||| n == 0x205f
    ||| n == 0x3000
}

/// `s` without its leading white space.
pub open spec fn trimmed_start(s: Seq<char>) -> Seq<char>
    decreases s.len(),
{
    if s.len() > 0 && white_space(s.first()) {
        trimmed_start(s.drop_first())
    } else {
        s
    }
}

/// `s` without its trailing white space.
pub open spec fn trimmed_end(s: Seq<char>) -> Seq<char>
    decreases s.len(),
{
    if s.len() > 0 && white_space(s.last()) {
        trimmed_end(s.drop_last())
    } else {
        s
    }
}

/// `s` without leading and trailing white space.
pub open spec fn trimmed(s: Seq<char>) -> Seq<char> {
    trimmed_end(trimmed_start(s))
}

/// `s` without the copies of `c` at its end.
pub open spec fn without_trailing(s: Seq<char>, c: char) -> Seq<char>
    decreases s.len(),
{
    if s.len() > 0 && s.last() == c {
        without_trailing(s.drop_last(), c)
    } else {
        s
    }
}

/// `needle` occurs in `hay` as a run of consecutive characters that starts at `at`.
pub open spec fn occurs_at(hay: Seq<char>, needle: Seq<char>, at: int) -> bool {
    &&& 0 <= at
    &&& at + needle.len() <= hay.len()
    &&& hay.subrange(at, at + needle.len()) == needle
}

/// `needle` occurs somewhere in `hay`.
pub open spec fn occurs_in(hay: Seq<char>, needle: Seq<char>) -> bool {
    exists|at: int| occurs_at(hay, needle, at)
}

/// `s` begins with `prefix`.
pub open spec fn begins_with(s: Seq<char>, prefix: Seq<char>) -> bool {
    prefix.len() <= s.len() && s.take(prefix.len() as int) == prefix
}

/// `s` ends with `suffix`.
pub open spec fn finishes_with(s: Seq<char>, suffix: Seq<char>) -> bool {
    suffix.len() <= s.len() && s.skip(s.len() - suffix.len()) == suffix
}

/// The position of the first `c` in `s`, or the length of `s` where there is none.
pub open spec fn first_of(s: Seq<char>, c: char) -> int
    decreases s.len(),
{
    if s.len() == 0 || s.first() == c {
        0
    } else {
        1 + first_of(s.drop_first(), c)
    }
}

/// The pieces of `s` between the copies of `c`, in order; always at least one.
pub open spec fn pieces(s: Seq<char>, c: char) -> Seq<Seq<char>>
    decreases s.len(),
{
    proof {
        lemma_first_of(s, c);
    }
    let at = first_of(s, c);
    if at >= s.len() {
        seq![s]
    } else {
        seq![s.take(at)] + pieces(s.skip(at + 1), c)
    }
}

/// `line` without one carriage return at its end.
pub open spec fn without_return(line: Seq<char>) -> Seq<char> {
    if line.len() > 0 && line.last() == '\r' {
        line.drop_last()
    } else {
        line
    }
}

/// The lines of `s`: each ends at a line feed, alone or after a carriage return, which is not
/// part of the line; what follows the last line feed is a line where it is not empty.
pub open spec fn text_lines(s: Seq<char>) -> Seq<Seq<char>>
    decreases s.len(),
{
    proof {
        lemma_first_of(s, '\n');
    }
    let at = first_of(s, '\n');
    if s.len() == 0 {
        Seq::empty()
    } else if at >= s.len() {
        seq![s]
    } else {
        seq![without_return(s.take(at))] + text_lines(s.skip(at + 1))
    }
}

/// `parts` one after the other, with `sep` between neighbours.
pub open spec fn joined(parts: Seq<Seq<char>>, sep: Seq<char>) -> Seq<char>
    decreases parts.len(),
{
    if parts.len() == 0 {
        Seq::empty()
    } else if parts.len() == 1 {
        parts[0]
    } else {
        joined(parts.drop_last(), sep) + sep + parts.last()
    }
}

/// The views of a sequence of strings.
pub open spec fn views(strings: Seq<String>) -> Seq<Seq<char>> {
    strings.map_values(|s: String| s@)
}

/// An optional text as mathematics.
pub open spec fn text_view(s: Option<&str>) -> Option<Seq<char>> {
    match s {
        Some(t) => Some(t@),
        None => None,
    }
}

/// An optional string as mathematics.
pub open spec fn string_view(s: Option<String>) -> Option<Seq<char>> {
    match s {
        Some(t) => Some(t@),
        None => None,
    }
}

/// The decimal digit of value `d`.
pub open spec fn digit(d: int) -> char {
    (48 + d) as char
}

/// `n` in decimal, without leading zeros.
pub open spec fn decimal(n: int) -> Seq<char>
    decreases n,
{
    if n < 10 {
        seq![digit(n)]
    } else {
        decimal(n / 10).push(digit(n % 10))
    }
}

/// `n` in decimal, with a minus sign where it is negative.
pub open spec fn signed_decimal(n: int) -> Seq<char> {
    if n < 0 {
        seq!['-'] + decimal(-n)
    } else {
        decimal(n)
    }
}

/// `c` is a decimal digit.
pub open spec fn is_digit(c: char) -> bool {
    '0' <= c <= '9'
}

/// `s` is made of decimal digits only, and of at least one.
pub open spec fn all_digits(s: Seq<char>) -> bool {
    s.len() > 0 && forall|i: int| 0 <= i < s.len() ==> is_digit(#[trigger] s[i])
}

/// The number that a run of decimal digits spells.
pub open spec fn digits_value(s: Seq<char>) -> int
    decreases s.len(),
{
    if s.len() == 0 {
        0
    } else {
        10 * digits_value(s.drop_last()) + (s.last() as int - '0' as int)
    }
}

/// The number that `s` spells: decimal digits, perhaps after a plus sign.
pub open spec fn unsigned_value(s: Seq<char>) -> Option<int> {
    let digits = if s.len() > 0 && s.first() == '+' {
        s.drop_first()
    } else {
        s
    };
    if all_digits(digits) {
        Some(digits_value(digits))
    } else {
        None
    }
}

/// The number that `s` spells: decimal digits, perhaps after a plus or a minus sign.
pub open spec fn signed_value(s: Seq<char>) -> Option<int> {
    if s.len() > 0 && s.first() == '-' {
        if all_digits(s.drop_first()) {
            Some(-digits_value(s.drop_first()))
        } else {
            None
        }
    } else {
        unsigned_value(s)
    }
}

/// `n`, where it lies from `low` to `high`.
pub open spec fn within(n: Option<int>, low: int, high: int) -> Option<int> {
    match n {
        Some(v) if low <= v <= high => n,
        _ => None,
    }
}

/// `c` with an ASCII capital letter turned into its small letter.
pub open spec fn ascii_lower(c: char) -> char {
    if 'A' <= c <= 'Z' {
        (c as int + 32) as char
    } else {
        c
    }
}

/// `a` and `b` differ at most in the case of ASCII letters.
pub open spec fn same_ignoring_case(a: Seq<char>, b: Seq<char>) -> bool {
    a.map_values(|c: char| ascii_lower(c)) == b.map_values(|c: char| ascii_lower(c))
}

/// The upper case of one character: what `char::to_uppercase` yields for it.
pub uninterp spec fn upper_char(c: char) -> Seq<char>;

/// The upper case of one character: an ASCII small letter has its capital letter, any other ASCII
/// character itself, and a character beyond ASCII what `upper_char` names.
pub open spec fn upper_of(c: char) -> Seq<char> {
    if 'a' <= c <= 'z' {
        seq![(c as int - 32) as char]
    } else if (c as int) < 128 {
        seq![c]
    } else {
        upper_char(c)
    }
}

/// The upper case of `s`, character by character.
pub open spec fn upper(s: Seq<char>) -> Seq<char>
    decreases s.len(),
{
    if s.len() == 0 {
        Seq::empty()
    } else {
        upper(s.drop_last()) + upper_of(s.last())
    }
}

// ---------------------------------------------------------------------------------------------
// Facts about them
// ---------------------------------------------------------------------------------------------

/// `first_of` is the position of the first copy of `c`.
pub proof fn lemma_first_of(s: Seq<char>, c: char)
    ensures
        0 <= first_of(s, c) <= s.len(),
        first_of(s, c) < s.len() ==> s[first_of(s, c)] == c,
        forall|i: int| 0 <= i < first_of(s, c) ==> s[i] != c,
    decreases s.len(),
{
    if s.len() > 0 && s.first() != c {
        lemma_first_of(s.drop_first(), c);
        assert forall|i: int| 0 <= i < first_of(s, c) implies s[i] != c by {
            if i > 0 {
                assert(s[i] == s.drop_first()[i - 1]);
            }
        }
    }
}

/// A position that only copies of other characters precede is `first_of`.
pub proof fn lemma_first_of_is(s: Seq<char>, c: char, at: int)
    requires
        0 <= at <= s.len(),
        at < s.len() ==> s[at] == c,
        forall|i: int| 0 <= i < at ==> s[i] != c,
    ensures
        first_of(s, c) == at,
{
    lemma_first_of(s, c);
    if first_of(s, c) < at {
        assert(s[first_of(s, c)] != c);
    }
}

/// The pieces on both sides of a copy of `c`.
pub proof fn lemma_pieces_concat(a: Seq<char>, b: Seq<char>, c: char)
    ensures
        pieces(a.push(c) + b, c) == pieces(a, c) + pieces(b, c),
    decreases a.len(),
{
    let s = a.push(c) + b;
    let at = first_of(a, c);
    lemma_first_of(a, c);
    assert forall|i: int| 0 <= i < at implies s[i] != c by {
        assert(s[i] == a[i]);
    }
    lemma_first_of_is(s, c, at);
    assert(s.take(at) =~= a.take(at));
    if at >= a.len() {
        assert(a.take(at) =~= a);
        assert(s.skip(at + 1) =~= b);
    } else {
        let rest = a.skip(at + 1);
        assert(s.skip(at + 1) =~= rest.push(c) + b);
        lemma_pieces_concat(rest, b, c);
        assert(seq![a.take(at)] + (pieces(rest, c) + pieces(b, c)) =~= (seq![a.take(at)] + pieces(
            rest,
            c,
        )) + pieces(b, c));
    }
}

/// No piece holds a copy of `c`.
pub proof fn lemma_pieces_free(s: Seq<char>, c: char)
    ensures
        forall|i: int| 0 <= i < pieces(s, c).len() ==> !(#[trigger] pieces(s, c)[i]).contains(c),
    decreases s.len(),
{
    lemma_first_of(s, c);
    let at = first_of(s, c);
    if at < s.len() {
        lemma_pieces_free(s.skip(at + 1), c);
        assert forall|i: int| 0 <= i < pieces(s, c).len() implies !(#[trigger] pieces(
            s,
            c,
        )[i]).contains(c) by {
            if i > 0 {
                assert(pieces(s, c)[i] == pieces(s.skip(at + 1), c)[i - 1]);
            }
        }
    }
}

/// Parts without a copy of `c` are the pieces of what they make together.
pub proof fn lemma_pieces_joined(parts: Seq<Seq<char>>, c: char)
    requires
        parts.len() > 0,
        forall|i: int| 0 <= i < parts.len() ==> !(#[trigger] parts[i]).contains(c),
    ensures
        pieces(joined(parts, seq![c]), c) == parts,
    decreases parts.len(),
{
    let last = parts.last();
    assert(!last.contains(c));
    lemma_first_of(last, c);
    assert(pieces(last, c) =~= seq![last]);
    if parts.len() > 1 {
        let before = parts.drop_last();
        assert forall|i: int| 0 <= i < before.len() implies !(#[trigger] before[i]).contains(c) by {
            assert(before[i] == parts[i]);
        }
        lemma_pieces_joined(before, c);
        let start = joined(before, seq![c]);
        assert(joined(parts, seq![c]) =~= start.push(c) + last);
        lemma_pieces_concat(start, last, c);
        assert(before + seq![last] =~= parts);
    } else {
        assert(parts =~= seq![last]);
    }
}

/// Trimming leaves a run of the text that neither begins nor ends with white space.
pub proof fn lemma_trimmed(s: Seq<char>)
    ensures
        trimmed(s).len() <= s.len(),
        trimmed(s).len() > 0 ==> !white_space(trimmed(s).first()) && !white_space(
            trimmed(s).last(),
        ),
{
    lemma_trimmed_start(s);
    lemma_trimmed_end(trimmed_start(s));
}

proof fn lemma_trimmed_start(s: Seq<char>)
    ensures
        trimmed_start(s).len() <= s.len(),
        trimmed_start(s).len() > 0 ==> !white_space(trimmed_start(s).first()),
    decreases s.len(),
{
    if s.len() > 0 && white_space(s.first()) {
        lemma_trimmed_start(s.drop_first());
    }
}

proof fn lemma_trimmed_end(s: Seq<char>)
    ensures
        trimmed_end(s).len() <= s.len(),
        trimmed_end(s).len() > 0 ==> trimmed_end(s).first() == s.first() && !white_space(
            trimmed_end(s).last(),
        ),
    decreases s.len(),
{
    if s.len() > 0 && white_space(s.last()) {
        lemma_trimmed_end(s.drop_last());
    }
}

/// Text that neither begins nor ends with white space is its own trimmed form.
pub proof fn lemma_trimmed_fixed(s: Seq<char>)
    requires
        s.len() > 0 ==> !white_space(s.first()) && !white_space(s.last()),
    ensures
        trimmed(s) == s,
{
}

/// Trimming twice gives what trimming once gives.
pub proof fn lemma_trim_idempotent(s: Seq<char>)
    ensures
        trimmed(trimmed(s)) == trimmed(s),
{
    lemma_trimmed(s);
    lemma_trimmed_fixed(trimmed(s));
}

/// ASCII text in upper case has each small letter replaced by its capital letter.
pub proof fn law_ascii_upper_case(s: Seq<char>)
    requires
        forall|i: int| 0 <= i < s.len() ==> (#[trigger] s[i]) as int <= 127,
    ensures
        upper(s) == s.map_values(
            |c: char|
                if 'a' <= c <= 'z' {
                    (c as int - 32) as char
                } else {
                    c
                },
        ),
    decreases s.len(),
{
    if s.len() > 0 {
        let rest = s.drop_last();
        assert forall|i: int| 0 <= i < rest.len() implies (#[trigger] rest[i]) as int <= 127 by {
            assert(s[i] as int <= 127);
        }
        law_ascii_upper_case(rest);
        assert(s[s.len() - 1] as int <= 127);
        assert(upper(s) =~= s.map_values(
            |c: char|
                if 'a' <= c <= 'z' {
                    (c as int - 32) as char
                } else {
                    c
                },
        ));
    }
}

/// Joining one part more appends the separator, where something stands before it, and the part.
pub proof fn lemma_joined_push(parts: Seq<Seq<char>>, part: Seq<char>, sep: Seq<char>)
    ensures
        joined(parts.push(part), sep) == if parts.len() == 0 {
            part
        } else {
            joined(parts, sep) + sep + part
        },
{
    assert(parts.push(part).drop_last() =~= parts);
}

// ---------------------------------------------------------------------------------------------
// Carrying them out
// ---------------------------------------------------------------------------------------------

/// Whether two texts hold the same characters.
pub fn same_text(a: &str, b: &str) -> (same: bool)
    ensures
        same == (a@ == b@),
{
    a.to_owned() == b.to_owned()
}

/// The characters of `s`, in order.
pub fn chars_of(s: &str) -> (chars: Vec<char>)
    ensures
        chars@ == s@,
{
    let mut chars: Vec<char> = Vec::new();
    for c in it: s.chars()
        invariant
            chars@ == it.seq().take(it.index() as int),
    {
        chars.push(c);
    }
    chars
}

/// The text that `chars` spells.
pub fn text_of(chars: &[char]) -> (s: String)
    ensures
        s@ == chars@,
{
    let mut s = String::new();
    for i in 0..chars.len()
        invariant
            s@ == chars@.take(i as int),
    {
        s.push(chars[i]);
        assert(chars@.take(i as int).push(chars@[i as int]) =~= chars@.take(i + 1));
    }
    assert(chars@.take(chars@.len() as int) =~= chars@);
    s
}

/// The characters of `s` from `from` up to `to`.
pub fn part_of(s: &str, from: usize, to: usize) -> (part: String)
    requires
        from <= to <= s@.len(),
    ensures
        part@ == s@.subrange(from as int, to as int),
{
    s.substring_char(from, to).to_owned()
}

/// Whether `c` is white space.
pub fn is_white_space(c: char) -> (b: bool)
    ensures
        b == white_space(c),
{
    let n: u32 = c as u32;
    (0x09 <= n && n <= 0x0d) || n == 0x20 || n == 0x85 || n == 0xa0 || n == 0x1680 || (0x2000 <= n
        && n <= 0x200a) || n == 0x2028 || n == 0x2029 || n == 0x202f || n == 0x205f || n == 0x3000
}

/// `s` without leading and trailing white space.
pub fn trim_text(s: &str) -> (t: String)
    ensures
        t@ == trimmed(s@),
{
    let chars = chars_of(s);
    let mut from: usize = 0;
    assert(s@.skip(0) =~= s@);
    while from < chars.len() && is_white_space(chars[from])
        invariant
            chars@ == s@,
            from <= chars.len(),
            trimmed_start(s@) == trimmed_start(s@.skip(from as int)),
        decreases chars.len() - from,
    {
        assert(s@.skip(from as int).drop_first() =~= s@.skip(from + 1));
        from = from + 1;
    }
    let ghost rest = s@.skip(from as int);
    assert(trimmed_start(s@) == rest);
    let mut to: usize = chars.len();
    assert(s@.subrange(from as int, to as int) =~= rest);
    while from < to && is_white_space(chars[to - 1])
        invariant
            chars@ == s@,
            from <= to <= chars.len(),
            trimmed_end(rest) == trimmed_end(s@.subrange(from as int, to as int)),
        decreases to,
    {
        assert(s@.subrange(from as int, to as int).drop_last() =~= s@.subrange(
            from as int,
            to - 1,
        ));
        to = to - 1;
    }
    part_of(s, from, to)
}

/// `s` without the copies of `c` at its end.
pub fn trim_trailing(s: &str, c: char) -> (t: String)
    ensures
        t@ == without_trailing(s@, c),
{
    let chars = chars_of(s);
    let mut to: usize = chars.len();
    assert(s@.subrange(0, to as int) =~= s@);
    while 0 < to && chars[to - 1] == c
        invariant
            chars@ == s@,
            to <= chars.len(),
            without_trailing(s@, c) == without_trailing(s@.subrange(0, to as int), c),
        decreases to,
    {
        assert(s@.subrange(0, to as int).drop_last() =~= s@.subrange(0, to - 1));
        to = to - 1;
    }
    part_of(s, 0, to)
}

/// Whether `needle` stands in `hay` from position `at` on.
pub fn stands_at(hay: &[char], needle: &[char], at: usize) -> (b: bool)
    ensures
        b == occurs_at(hay@, needle@, at as int),
{
    if needle.len() > hay.len() || at > hay.len() - needle.len() {
        return false;
    }
    for i in 0..needle.len()
        invariant
            at + needle.len() <= hay.len(),
            forall|j: int| 0 <= j < i ==> hay@[at + j] == needle@[j],
    {
        if hay[at + i] != needle[i] {
            assert(hay@.subrange(at as int, at + needle@.len())[i as int] != needle@[i as int]);
            return false;
        }
    }
    assert(hay@.subrange(at as int, at + needle@.len()) =~= needle@);
    true
}

/// Whether `s` begins with `prefix`.
pub fn starts_with(s: &str, prefix: &str) -> (b: bool)
    ensures
        b == begins_with(s@, prefix@),
{
    let hay = chars_of(s);
    let needle = chars_of(prefix);
    assert(prefix@.len() <= s@.len() ==> s@.subrange(0, prefix@.len() as int) =~= s@.take(
        prefix@.len() as int,
    ));
    stands_at(&hay, &needle, 0)
}

/// Whether `s` ends with `suffix`.
pub fn ends_with(s: &str, suffix: &str) -> (b: bool)
    ensures
        b == finishes_with(s@, suffix@),
{
    let hay = chars_of(s);
    let needle = chars_of(suffix);
    if needle.len() > hay.len() {
        return false;
    }
    assert(s@.subrange(s@.len() - suffix@.len(), s@.len() as int) =~= s@.skip(
        s@.len() - suffix@.len(),
    ));
    stands_at(&hay, &needle, hay.len() - needle.len())
}

/// Whether `needle` occurs in `s`.
pub fn contains_text(s: &str, needle: &str) -> (b: bool)
    ensures
        b == occurs_in(s@, needle@),
{
    let hay = chars_of(s);
    let wanted = chars_of(needle);
    let mut at: usize = 0;
    while at < hay.len()
        invariant
            hay@ == s@,
            wanted@ == needle@,
            at <= hay.len(),
            forall|i: int| 0 <= i < at ==> !occurs_at(s@, needle@, i),
        decreases hay.len() - at,
    {
        if stands_at(&hay, &wanted, at) {
            return true;
        }
        at = at + 1;
    }
    stands_at(&hay, &wanted, at)
}

/// The position of the first `c` in `chars` from `from` on, or the number of characters.
pub fn find_char(chars: &[char], c: char, from: usize) -> (at: usize)
    requires
        from <= chars@.len(),
    ensures
        from <= at <= chars@.len(),
        at == from + first_of(chars@.skip(from as int), c),
{
    let mut at = from;
    while at < chars.len() && chars[at] != c
        invariant
            from <= at <= chars@.len(),
            forall|i: int| from <= i < at ==> chars@[i] != c,
        decreases chars@.len() - at,
    {
        at = at + 1;
    }
    proof {
        lemma_first_of_is(chars@.skip(from as int), c, at - from);
    }
    at
}

/// The pieces of `s` between the copies of `c`.
pub fn split_text(s: &str, c: char) -> (parts: Vec<String>)
    ensures
        views(parts@) == pieces(s@, c),
{
    let chars = chars_of(s);
    let mut parts: Vec<String> = Vec::new();
    let mut from: usize = 0;
    assert(s@.skip(0) =~= s@);
    loop
        invariant_except_break
            from <= chars@.len(),
            pieces(s@, c) == views(parts@) + pieces(s@.skip(from as int), c),
        invariant
            chars@ == s@,
        ensures
            views(parts@) == pieces(s@, c),
        decreases chars@.len() - from,
    {
        let at = find_char(&chars, c, from);
        let ghost before = parts@;
        parts.push(part_of(s, from, at));
        assert(views(parts@) =~= views(before).push(s@.subrange(from as int, at as int)));
        if at == chars.len() {
            assert(s@.subrange(from as int, at as int) =~= s@.skip(from as int));
            assert(views(parts@) =~= views(before) + seq![s@.skip(from as int)]);
            break;
        }
        assert(s@.subrange(from as int, at as int) =~= s@.skip(from as int).take(at - from));
        assert(s@.skip(from as int).skip(at - from + 1) =~= s@.skip(at + 1));
        assert(views(parts@) + pieces(s@.skip(at + 1), c) =~= views(before) + (seq![
            s@.subrange(from as int, at as int),
        ] + pieces(s@.skip(at + 1), c)));
        from = at + 1;
    }
    parts
}

/// The lines of `s`.
pub fn lines_of(s: &str) -> (lines: Vec<String>)
    ensures
        views(lines@) == text_lines(s@),
{
    let chars = chars_of(s);
    let mut lines: Vec<String> = Vec::new();
    let mut from: usize = 0;
    assert(s@.skip(0) =~= s@);
    while from < chars.len()
        invariant
            chars@ == s@,
            from <= chars@.len(),
            text_lines(s@) == views(lines@) + text_lines(s@.skip(from as int)),
        decreases chars@.len() - from,
    {
        let at = find_char(&chars, '\n', from);
        let ghost before = lines@;
        let ghost rest = s@.skip(from as int);
        assert(s@.subrange(from as int, at as int) =~= rest.take(at - from));
        if at == chars.len() {
            lines.push(part_of(s, from, at));
            assert(rest.take(at - from) =~= rest);
            assert(views(lines@) =~= views(before).push(rest));
            from = at;
            assert(s@.skip(from as int) =~= Seq::<char>::empty());
            assert(text_lines(rest) == seq![rest]);
            assert(views(lines@) + text_lines(s@.skip(from as int)) =~= views(before) + seq![rest]);
        } else {
            let to = if from < at && chars[at - 1] == '\r' {
                at - 1
            } else {
                at
            };
            lines.push(part_of(s, from, to));
            assert(s@.subrange(from as int, to as int) =~= without_return(rest.take(at - from)));
            assert(rest.skip(at - from + 1) =~= s@.skip(at + 1));
            assert(views(lines@) =~= views(before).push(without_return(rest.take(at - from))));
            assert(views(lines@) + text_lines(s@.skip(at + 1)) =~= views(before) + (seq![
                without_return(rest.take(at - from)),
            ] + text_lines(s@.skip(at + 1))));
            from = at + 1;
        }
    }
    assert(s@.skip(from as int) =~= Seq::<char>::empty());
    assert(views(lines@) =~= text_lines(s@));
    lines
}

/// `parts` joined by `sep`.
pub fn join_text(parts: &[String], sep: &str) -> (s: String)
    ensures
        s@ == joined(views(parts@), sep@),
{
    let mut s = String::new();
    assert(views(parts@).take(0) =~= Seq::<Seq<char>>::empty());
    for i in 0..parts.len()
        invariant
            s@ == joined(views(parts@).take(i as int), sep@),
    {
        proof {
            lemma_joined_push(views(parts@).take(i as int), parts@[i as int]@, sep@);
            assert(views(parts@).take(i as int).push(parts@[i as int]@) =~= views(parts@).take(
                i + 1,
            ));
        }
        if i > 0 {
            s.append(sep);
        }
        s.append(parts[i].as_str());
        assert(i == 0 ==> s@ =~= parts@[0]@);
    }
    assert(views(parts@).take(parts@.len() as int) =~= views(parts@));
    s
}

/// `n` in decimal.
pub fn unsigned_text(n: u64) -> (s: String)
    ensures
        s@ == decimal(n as int),
    decreases n,
{
    let d: u8 = (n % 10) as u8;
    let c: char = (48 + d) as char;
    let mut s = if n < 10 {
        String::new()
    } else {
        unsigned_text(n / 10)
    };
    s.push(c);
    assert(n < 10 ==> s@ =~= seq![c]);
    s
}

/// `n` in decimal, with its sign.
pub fn signed_text(n: i64) -> (s: String)
    ensures
        s@ == signed_decimal(n as int),
{
    if n < 0 {
        let mut s = String::new();
        s.push('-');
        let magnitude: u64 = if n == i64::MIN {
            0x8000_0000_0000_0000
        } else {
            (-n) as u64
        };
        let digits = unsigned_text(magnitude);
        s.append(digits.as_str());
        assert(s@ =~= seq!['-'] + decimal(-n));
        s
    } else {
        unsigned_text(n as u64)
    }
}

/// The value of a run of digits, or `None` where a character is no digit, the run is empty or
/// the value exceeds `u64`.
fn read_digits(chars: &[char], from: usize) -> (value: Option<u64>)
    requires
        from <= chars@.len(),
    ensures
        match value {
            Some(v) => all_digits(chars@.skip(from as int)) && v == digits_value(
                chars@.skip(from as int),
            ),
            None => !all_digits(chars@.skip(from as int)) || digits_value(
                chars@.skip(from as int),
            ) > u64::MAX,
        },
{
    let ghost run = chars@.skip(from as int);
    if from == chars.len() {
        return None;
    }
    let mut value: u64 = 0;
    let mut over = false;
    let mut at = from;
    assert(run.take(0) =~= Seq::<char>::empty());
    while at < chars.len()
        invariant
            run == chars@.skip(from as int),
            from <= at <= chars@.len(),
            forall|i: int| 0 <= i < at - from ==> is_digit(#[trigger] run[i]),
            over ==> digits_value(run.take(at - from)) > u64::MAX,
            !over ==> value == digits_value(run.take(at - from)),
        decreases chars@.len() - at,
    {
        let c = chars[at];
        if !('0' <= c && c <= '9') {
            assert(!is_digit(run[at - from]));
            return None;
        }
        let d: u64 = c as u64 - '0' as u64;
        assert(run.take(at - from + 1).drop_last() =~= run.take(at - from));
        assert(run.take(at - from + 1).last() == c);
        if !over {
            if value > 1844674407370955161 || (value == 1844674407370955161 && d > 5) {
                over = true;
            } else {
                value = value * 10 + d;
            }
        }
        at = at + 1;
    }
    assert(run.take(at - from) =~= run);
    if over {
        None
    } else {
        Some(value)
    }
}

/// The number that `s` spells, where it is at most `max`.
pub fn parse_unsigned(s: &str, max: u64) -> (value: Option<u64>)
    ensures
        within(unsigned_value(s@), 0, max as int) == match value {
            Some(v) => Some(v as int),
            None => None::<int>,
        },
{
    let chars = chars_of(s);
    let from: usize = if chars.len() > 0 && chars[0] == '+' {
        1
    } else {
        0
    };
    assert(s@.skip(0) =~= s@);
    assert(from == 1 ==> s@.skip(1) =~= s@.drop_first());
    proof {
        lemma_digits_value(s@.skip(from as int));
    }
    match read_digits(&chars, from) {
        Some(v) => if v <= max {
            Some(v)
        } else {
            None
        },
        None => None,
    }
}

/// A run of digits spells no negative number.
proof fn lemma_digits_value(s: Seq<char>)
    ensures
        all_digits(s) ==> digits_value(s) >= 0,
    decreases s.len(),
{
    if all_digits(s) {
        assert(is_digit(s.last()));
        if s.len() > 1 {
            assert forall|i: int| 0 <= i < s.drop_last().len() implies is_digit(
                #[trigger] s.drop_last()[i],
            ) by {
                assert(is_digit(s[i]));
            }
            lemma_digits_value(s.drop_last());
        }
    }
}

/// The number that `s` spells, where an `i64` holds it.
pub fn parse_signed(s: &str) -> (value: Option<i64>)
    ensures
        within(signed_value(s@), i64::MIN as int, i64::MAX as int) == match value {
            Some(v) => Some(v as int),
            None => None::<int>,
        },
{
    let chars = chars_of(s);
    if chars.len() > 0 && chars[0] == '-' {
        assert(s@.skip(1) =~= s@.drop_first());
        proof {
            lemma_digits_value(s@.drop_first());
        }
        match read_digits(&chars, 1) {
            Some(v) => if v <= 0x7fff_ffff_ffff_ffff {
                Some(-(v as i64))
            } else if v == 0x8000_0000_0000_0000 {
                Some(i64::MIN)
            } else {
                None
            },
            None => None,
        }
    } else {
        proof {
            lemma_digits_value(s@);
            lemma_digits_value(s@.drop_first());
        }
        match parse_unsigned(s, 0x7fff_ffff_ffff_ffff) {
            Some(v) => Some(v as i64),
            None => None,
        }
    }
}

/// Whether `a` and `b` differ at most in the case of ASCII letters.
pub fn equals_ignoring_case(a: &str, b: &str) -> (same: bool)
    ensures
        same == same_ignoring_case(a@, b@),
{
    let x = chars_of(a);
    let y = chars_of(b);
    let ghost low = |c: char| ascii_lower(c);
    if x.len() != y.len() {
        assert(a@.map_values(low).len() != b@.map_values(low).len());
        return false;
    }
    for i in 0..x.len()
        invariant
            x@ == a@,
            y@ == b@,
            x.len() == y.len(),
            low == (|c: char| ascii_lower(c)),
            forall|j: int| 0 <= j < i ==> ascii_lower(a@[j]) == ascii_lower(b@[j]),
    {
        if to_ascii_lower(x[i]) != to_ascii_lower(y[i]) {
            assert(a@.map_values(low)[i as int] != b@.map_values(low)[i as int]);
            return false;
        }
    }
    assert(a@.map_values(low) =~= b@.map_values(low));
    true
}

/// `c` with an ASCII capital letter turned into its small letter.
pub fn to_ascii_lower(c: char) -> (low: char)
    ensures
        low == ascii_lower(c),
{
    if 'A' <= c && c <= 'Z' {
        let n: u8 = c as u8;
        (n + 32) as char
    } else {
        c
    }
}

/// `char::to_uppercase`: the characters that it yields are named `upper_char`; an ASCII small
/// letter yields its capital letter, and any other ASCII character yields itself.
#[verifier::external_body]
fn char_upper(c: char) -> (up: Vec<char>)
    ensures
        up@ == upper_char(c),
        'a' <= c <= 'z' ==> up@ == seq![(c as int - 32) as char],
        (c as int) < 128 && !('a' <= c <= 'z') ==> up@ == seq![c],
{
    c.to_uppercase().collect()
}

/// The upper case of `s`.
pub fn upper_text(s: &str) -> (up: String)
    ensures
        up@ == upper(s@),
{
    let chars = chars_of(s);
    let mut up = String::new();
    assert(s@.take(0) =~= Seq::<char>::empty());
    for i in 0..chars.len()
        invariant
            chars@ == s@,
            up@ == upper(s@.take(i as int)),
    {
        assert(s@.take(i + 1).drop_last() =~= s@.take(i as int));
        let part = text_of(&char_upper(chars[i]));
        up.append(part.as_str());
    }
    assert(s@.take(s@.len() as int) =~= s@);
    up
}

// ---------------------------------------------------------------------------------------------
// Laws
// ---------------------------------------------------------------------------------------------

/// `t` is `s` from `a` to `b`, and what lies outside is white space.
pub open spec fn cut_to(s: Seq<char>, t: Seq<char>, a: int, b: int) -> bool {
    &&& 0 <= a <= b <= s.len()
    &&& t == s.subrange(a, b)
    &&& forall|i: int| 0 <= i < s.len() && !(a <= i < b) ==> white_space(#[trigger] s[i])
}

/// Trimming takes white space away at both ends: nothing else, nothing between, and all that is
/// there.
pub proof fn law_trimming_takes_white_space_at_the_ends(s: Seq<char>)
    ensures
        exists|a: int, b: int| cut_to(s, trimmed(s), a, b),
        trimmed(s).len() > 0 ==> !white_space(trimmed(s).first()) && !white_space(
            trimmed(s).last(),
        ),
        trimmed(s).len() == 0 <==> forall|i: int|
            0 <= i < s.len() ==> white_space(#[trigger] s[i]),
{
    lemma_trimmed(s);
    lemma_start_cut(s);
    let rest = trimmed_start(s);
    lemma_end_cut(rest);
    let a = s.len() - rest.len();
    let b = a + trimmed(s).len();
    assert(trimmed(s) =~= s.subrange(a, b));
    assert forall|i: int| 0 <= i < s.len() && !(a <= i < b) implies white_space(#[trigger] s[i]) by {
        if i >= b {
            assert(s[i] == rest[i - a]);
        }
    }
    assert(cut_to(s, trimmed(s), a, b));
    if trimmed(s).len() > 0 {
        assert(!white_space(s[a]));
    }
}

proof fn lemma_start_cut(s: Seq<char>)
    ensures
        trimmed_start(s).len() <= s.len(),
        trimmed_start(s) == s.skip(s.len() - trimmed_start(s).len()),
        forall|i: int|
            0 <= i < s.len() - trimmed_start(s).len() ==> white_space(#[trigger] s[i]),
    decreases s.len(),
{
    if s.len() > 0 && white_space(s.first()) {
        let rest = s.drop_first();
        lemma_start_cut(rest);
        let n = s.len() - trimmed_start(s).len();
        assert(s.skip(n) =~= rest.skip(n - 1));
        assert forall|i: int| 0 <= i < n implies white_space(#[trigger] s[i]) by {
            if i > 0 {
                assert(s[i] == rest[i - 1]);
            }
        }
    } else {
        assert(s.skip(0) =~= s);
    }
}

proof fn lemma_end_cut(s: Seq<char>)
    ensures
        trimmed_end(s).len() <= s.len(),
        trimmed_end(s) == s.take(trimmed_end(s).len() as int),
        forall|i: int| trimmed_end(s).len() <= i < s.len() ==> white_space(#[trigger] s[i]),
    decreases s.len(),
{
    if s.len() > 0 && white_space(s.last()) {
        let rest = s.drop_last();
        lemma_end_cut(rest);
        let n = trimmed_end(s).len() as int;
        assert(s.take(n) =~= rest.take(n));
        assert forall|i: int| n <= i < s.len() implies white_space(#[trigger] s[i]) by {
            if i < rest.len() {
                assert(s[i] == rest[i]);
            }
        }
    } else {
        assert(s.take(s.len() as int) =~= s);
    }
}

/// What occurs in a text and neither begins nor ends with white space occurs in the trimmed text
/// too.
pub proof fn lemma_occurs_in_trimmed(s: Seq<char>, part: Seq<char>, at: int)
    requires
        part.len() > 0,
        !white_space(part.first()),
        !white_space(part.last()),
        occurs_at(s, part, at),
    ensures
        occurs_in(trimmed(s), part),
{
    law_trimming_takes_white_space_at_the_ends(s);
    let (a, b) = choose|a: int, b: int| cut_to(s, trimmed(s), a, b);
    let end = at + part.len();
    assert(s[at] == s.subrange(at, end)[0]);
    assert(s[end - 1] == s.subrange(at, end)[part.len() - 1]);
    assert(a <= at && end <= b);
    assert(trimmed(s).subrange(at - a, end - a) =~= s.subrange(at, end));
    assert(occurs_at(trimmed(s), part, at - a));
}

/// Pieces hold no separator, and with separators between them they are the text again.
pub proof fn law_pieces_join_to_the_text(s: Seq<char>, c: char)
    ensures
        pieces(s, c).len() > 0,
        forall|i: int| 0 <= i < pieces(s, c).len() ==> !(#[trigger] pieces(s, c)[i]).contains(c),
        joined(pieces(s, c), seq![c]) == s,
    decreases s.len(),
{
    lemma_pieces_free(s, c);
    lemma_first_of(s, c);
    let at = first_of(s, c);
    if at < s.len() {
        let rest = s.skip(at + 1);
        law_pieces_join_to_the_text(rest, c);
        lemma_joined_first(s.take(at), pieces(rest, c), seq![c]);
        assert(s.take(at) + seq![c] + rest =~= s);
    }
}

/// The first part stands before the separator and the others.
pub proof fn lemma_joined_first(part: Seq<char>, parts: Seq<Seq<char>>, sep: Seq<char>)
    requires
        parts.len() > 0,
    ensures
        joined(seq![part] + parts, sep) == part + sep + joined(parts, sep),
    decreases parts.len(),
{
    let all = seq![part] + parts;
    if parts.len() == 1 {
        assert(all.drop_last() =~= seq![part]);
        assert(joined(seq![part], sep) =~= part);
        assert(parts =~= seq![parts[0]]);
    } else {
        lemma_joined_first(part, parts.drop_last(), sep);
        assert(all.drop_last() =~= seq![part] + parts.drop_last());
        assert(part + sep + joined(parts.drop_last(), sep) + sep + parts.last() =~= part + sep + (
        joined(parts.drop_last(), sep) + sep + parts.last()));
    }
}

/// Parts are joined from either end: nothing gives nothing, one part gives itself, and each
/// further part stands behind a separator.
pub proof fn law_joining_keeps_every_part(parts: Seq<Seq<char>>, part: Seq<char>, sep: Seq<char>)
    ensures
        joined(Seq::<Seq<char>>::empty(), sep) == Seq::<char>::empty(),
        joined(seq![part], sep) == part,
        parts.len() > 0 ==> joined(parts.push(part), sep) == joined(parts, sep) + sep + part,
        parts.len() > 0 ==> joined(seq![part] + parts, sep) == part + sep + joined(parts, sep),
{
    lemma_joined_push(parts, part, sep);
    if parts.len() > 0 {
        lemma_joined_first(part, parts, sep);
    }
}

/// Lines are read one by one: a line ends at a line feed, or at a carriage return and a line
/// feed, and the text behind that is read in the same way. A last line needs no end.
pub proof fn law_lines_are_read_one_by_one(line: Seq<char>, rest: Seq<char>)
    requires
        !line.contains('\n'),
    ensures
        text_lines(Seq::<char>::empty()) == Seq::<Seq<char>>::empty(),
        line.len() > 0 ==> text_lines(line) == seq![line],
        !(line.len() > 0 && line.last() == '\r') ==> text_lines(line.push('\n') + rest) == seq![
            line,
        ] + text_lines(rest),
        text_lines(line.push('\r').push('\n') + rest) == seq![line] + text_lines(rest),
{
    lemma_first_of(line, '\n');
    if first_of(line, '\n') < line.len() {
        assert(line[first_of(line, '\n')] == '\n');
    }
    let plain = line.push('\n') + rest;
    lemma_first_of_is(plain, '\n', line.len() as int);
    assert(plain.take(line.len() as int) =~= line);
    assert(plain.skip(line.len() as int + 1) =~= rest);
    let longer = line.push('\r');
    let both = longer.push('\n') + rest;
    assert forall|i: int| 0 <= i < longer.len() implies both[i] != '\n' by {
        if i < line.len() {
            assert(both[i] == line[i]);
        }
    }
    lemma_first_of_is(both, '\n', longer.len() as int);
    assert(both.take(longer.len() as int) =~= longer);
    assert(longer.drop_last() =~= line);
    assert(both.skip(longer.len() as int + 1) =~= rest);
}

/// A number is written in decimal digits that spell it, without a zero before them.
pub proof fn law_decimal_spells_the_number(n: int)
    requires
        n >= 0,
    ensures
        all_digits(decimal(n)),
        digits_value(decimal(n)) == n,
        n > 0 ==> decimal(n)[0] != '0',
        unsigned_value(decimal(n)) == Some(n),
        signed_value(signed_decimal(n)) == Some(n),
        signed_value(signed_decimal(-n)) == Some(-n),
    decreases n,
{
    let s = decimal(n);
    if n < 10 {
        assert(s.drop_last() =~= Seq::<char>::empty());
        reveal_with_fuel(digits_value, 2);
    } else {
        law_decimal_spells_the_number(n / 10);
        assert(s.drop_last() =~= decimal(n / 10));
        assert(s[0] == decimal(n / 10)[0]);
        assert forall|i: int| 0 <= i < s.len() implies is_digit(#[trigger] s[i]) by {
            if i < s.len() - 1 {
                assert(s[i] == decimal(n / 10)[i]);
            }
        }
    }
    assert(is_digit(s[0]));
    assert(s.first() != '+' && s.first() != '-');
    let minus = seq!['-'] + s;
    assert(minus.drop_first() =~= s);
}

/// A text begins with what something follows in it, ends with what something precedes in it, and
/// holds what stands between two parts of it; and only with that.
pub proof fn law_parts_of_a_text_are_found(
    s: Seq<char>,
    part: Seq<char>,
    before: Seq<char>,
    after: Seq<char>,
)
    ensures
        begins_with(part + after, part),
        begins_with(s, part) ==> s == part + s.skip(part.len() as int),
        finishes_with(before + part, part),
        finishes_with(s, part) ==> s == s.take(s.len() - part.len()) + part,
        occurs_at(before + part + after, part, before.len() as int),
        occurs_in(s, part) ==> exists|at: int|
            0 <= at <= s.len() - part.len() && #[trigger] s.subrange(at, at + part.len()) == part,
{
    assert((part + after).take(part.len() as int) =~= part);
    assert((before + part).skip(before.len() as int) =~= part);
    let at = before.len() as int;
    assert((before + part + after).subrange(at, at + part.len()) =~= part);
    if begins_with(s, part) {
        assert(s =~= part + s.skip(part.len() as int));
    }
    if finishes_with(s, part) {
        assert(s =~= s.take(s.len() - part.len()) + part);
    }
    if occurs_in(s, part) {
        let found = choose|at: int| occurs_at(s, part, at);
        assert(s.subrange(found, found + part.len()) == part);
    }
}

/// Each part occurs in what the parts make together.
pub proof fn lemma_joined_holds(parts: Seq<Seq<char>>, sep: Seq<char>, i: int)
    requires
        0 <= i < parts.len(),
    ensures
        occurs_in(joined(parts, sep), parts[i]),
    decreases parts.len(),
{
    let s = joined(parts, sep);
    if parts.len() == 1 {
        assert(s.subrange(0, s.len() as int) =~= s);
        assert(occurs_at(s, parts[i], 0));
    } else {
        let before = joined(parts.drop_last(), sep);
        if i == parts.len() - 1 {
            let at = before.len() + sep.len();
            assert(s.subrange(at as int, s.len() as int) =~= parts.last());
            assert(occurs_at(s, parts[i], at as int));
        } else {
            lemma_joined_holds(parts.drop_last(), sep, i);
            let at = choose|at: int| occurs_at(before, parts[i], at);
            assert(s.subrange(at, at + parts[i].len()) =~= before.subrange(
                at,
                at + parts[i].len(),
            ));
            assert(occurs_at(s, parts[i], at));
        }
    }
}

/// What occurs in a text occurs behind anything that stands before it.
pub proof fn lemma_occurs_behind(before: Seq<char>, s: Seq<char>, part: Seq<char>)
    requires
        occurs_in(s, part),
    ensures
        occurs_in(before + s, part),
{
    let at = choose|at: int| occurs_at(s, part, at);
    let from = before.len() + at;
    assert((before + s).subrange(from, from + part.len()) =~= s.subrange(at, at + part.len()));
    assert(occurs_at(before + s, part, from));
}

/// What occurs in a part of a text occurs in the text.
pub proof fn lemma_occurs_deeper(s: Seq<char>, part: Seq<char>, inner: Seq<char>)
    requires
        occurs_in(s, part),
        occurs_in(part, inner),
    ensures
        occurs_in(s, inner),
{
    let a = choose|at: int| occurs_at(s, part, at);
    let b = choose|at: int| occurs_at(part, inner, at);
    assert(s.subrange(a, a + part.len()).subrange(b, b + inner.len()) =~= s.subrange(
        a + b,
        a + b + inner.len(),
    ));
    assert(occurs_at(s, inner, a + b));
}

/// Two texts are the same but for the case of ASCII letters exactly where they are as long and
/// each character of the one is that of the other, or the other case of it.
pub proof fn law_case_of_letters_is_ignored(a: Seq<char>, b: Seq<char>)
    ensures
        same_ignoring_case(a, b) <==> {
            &&& a.len() == b.len()
            &&& forall|i: int| #![trigger a[i]] #![trigger b[i]]
                0 <= i < a.len() ==> {
                    ||| a[i] == b[i]
                    ||| 'A' <= a[i] <= 'Z' && b[i] as int == a[i] as int + 32
                    ||| 'A' <= b[i] <= 'Z' && a[i] as int == b[i] as int + 32
                }
        },
{
    let x = a.map_values(|c: char| ascii_lower(c));
    let y = b.map_values(|c: char| ascii_lower(c));
    if same_ignoring_case(a, b) {
        assert(x.len() == y.len());
        assert forall|i: int| 0 <= i < a.len() implies {
            ||| a[i] == #[trigger] b[i]
            ||| 'A' <= a[i] <= 'Z' && b[i] as int == a[i] as int + 32
            ||| 'A' <= b[i] <= 'Z' && a[i] as int == b[i] as int + 32
        } by {
            assert(x[i] == y[i]);
        }
    }
    if a.len() == b.len() && (forall|i: int|
        0 <= i < a.len() ==> {
            ||| a[i] == #[trigger] b[i]
            ||| 'A' <= a[i] <= 'Z' && b[i] as int == a[i] as int + 32
            ||| 'A' <= b[i] <= 'Z' && a[i] as int == b[i] as int + 32
        }) {
        assert forall|i: int| 0 <= i < x.len() implies x[i] == y[i] by {
            assert(a[i] == b[i] || 'A' <= a[i] <= 'Z' && b[i] as int == a[i] as int + 32 || 'A'
                <= b[i] <= 'Z' && a[i] as int == b[i] as int + 32);
        }
        assert(x =~= y);
    }
}

/// A number is spelled by decimal digits alone, perhaps behind a sign; each further digit makes
/// ten times the number and itself.
pub proof fn law_digits_spell_numbers(s: Seq<char>, c: char)
    ensures
        s.len() == 0 ==> unsigned_value(s) is None && signed_value(s) is None,
        unsigned_value(s) is Some ==> forall|i: int|
            0 < i < s.len() ==> '0' <= #[trigger] s[i] <= '9',
        unsigned_value(s) is Some ==> s[0] == '+' && s.len() > 1 || '0' <= s[0] <= '9',
        unsigned_value(s) matches Some(n) ==> n >= 0,
        unsigned_value(s) matches Some(n) ==> '0' <= c <= '9' ==> unsigned_value(s.push(c)) == Some(
            10 * n + (c as int - '0' as int),
        ),
        !('0' <= c <= '9') ==> unsigned_value(s.push(c)) is None,
        '0' <= c <= '9' ==> unsigned_value(seq![c]) == Some(c as int - '0' as int),
{
    let digits = if s.len() > 0 && s.first() == '+' {
        s.drop_first()
    } else {
        s
    };
    let longer = s.push(c);
    lemma_digits_value(digits);
    assert(seq![c].drop_last() =~= Seq::<char>::empty());
    reveal_with_fuel(digits_value, 2);
    if '0' <= c <= '9' {
        assert(all_digits(seq![c])) by {
            assert(seq![c][0] == c);
        }
    }
    if unsigned_value(s) is Some {
        assert(is_digit(digits[0]));
        assert forall|i: int| 0 < i < s.len() implies '0' <= #[trigger] s[i] <= '9' by {
            if s.first() == '+' {
                assert(is_digit(digits[i - 1]));
            } else {
                assert(is_digit(digits[i]));
            }
        }
        if s.first() == '+' {
            assert(longer.drop_first() =~= digits.push(c));
        }
        if '0' <= c <= '9' {
            assert forall|i: int| 0 <= i < digits.push(c).len() implies is_digit(
                #[trigger] digits.push(c)[i],
            ) by {
                if i < digits.len() {
                    assert(is_digit(digits[i]));
                }
            }
            assert(digits.push(c).drop_last() =~= digits);
        }
    }
    if !('0' <= c <= '9') {
        let rest = if longer.first() == '+' {
            longer.drop_first()
        } else {
            longer
        };
        if rest.len() > 0 {
            assert(rest[rest.len() - 1] == c);
        }
    }
}

} // verus!
