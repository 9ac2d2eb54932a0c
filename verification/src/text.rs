//! Text as sequences of characters: white space, case, search, lines and UTF-8 offsets.
use vstd::prelude::*;
use vstd::utf8::*;

verus! {

/// `String::push` appends one character at the end of the string.
pub assume_specification[ String::push ](s: &mut String, c: char)
    ensures
        final(s)@ == old(s)@.push(c),
;

/// The characters of `s`.
pub fn chars_of(s: &str) -> (r: Vec<char>)
    ensures
        r@ == s@,
{
    let mut r: Vec<char> = Vec::new();
    for c in it: s.chars()
        invariant
            it.seq() == s@,
            r@ == s@.take(it.index()),
    {
        r.push(c);
    }
    r
}

/// The string made of `chars[from..to]`.
pub fn string_of(chars: &Vec<char>, from: usize, to: usize) -> (r: String)
    requires
        from <= to <= chars@.len(),
    ensures
        r@ == chars@.subrange(from as int, to as int),
{
    let mut r: String = String::new();
    let mut i: usize = from;
    while i < to
        invariant
            from <= i <= to <= chars@.len(),
            r@ == chars@.subrange(from as int, i as int),
        decreases to - i,
    {
        r.push(chars[i]);
        i += 1;
    }
    r
}

// ---------------------------------------------------------------------------
// White space
// ---------------------------------------------------------------------------
/// The characters with the Unicode property `White_Space`.
pub open spec fn is_space(c: char) -> bool {
    ||| 0x09 <= c as u32 <= 0x0d
    ||| c as u32 == 0x20
    ||| c as u32 == 0x85
    ||| c as u32 == 0xa0
    ||| c as u32 == 0x1680
    ||| 0x2000 <= c as u32 <= 0x200a
    ||| c as u32 == 0x2028
    ||| c as u32 == 0x2029
    ||| c as u32 == 0x202f
    ||| c as u32 == 0x205f
    ||| c as u32 == 0x3000
}

/// Whether `c` is white space.
pub fn is_whitespace(c: char) -> (r: bool)
    ensures
        r == is_space(c),
{
    let u: u32 = c as u32;
    (0x09 <= u && u <= 0x0d) || u == 0x20 || u == 0x85 || u == 0xa0 || u == 0x1680 || (0x2000 <= u
        && u <= 0x200a) || u == 0x2028 || u == 0x2029 || u == 0x202f || u == 0x205f || u == 0x3000
}

/// `s` without its leading white space.
pub open spec fn trimmed_start(s: Seq<char>) -> Seq<char>
    decreases s.len(),
{
    if s.len() > 0 && is_space(s.first()) {
        trimmed_start(s.drop_first())
    } else {
        s
    }
}

/// `s` without its trailing white space.
pub open spec fn trimmed_end(s: Seq<char>) -> Seq<char>
    decreases s.len(),
{
    if s.len() > 0 && is_space(s.last()) {
        trimmed_end(s.drop_last())
    } else {
        s
    }
}

/// `s` without white space at either end.
pub open spec fn trimmed(s: Seq<char>) -> Seq<char> {
    trimmed_end(trimmed_start(s))
}

/// What is left of leading white space is the end of the text.
proof fn lemma_trimmed_start(s: Seq<char>)
    ensures
        trimmed_start(s).len() <= s.len(),
        trimmed_start(s) == s.skip(s.len() - trimmed_start(s).len()),
        forall|k: int| 0 <= k < s.len() - trimmed_start(s).len() ==> is_space(#[trigger] s[k]),
        trimmed_start(s).len() > 0 ==> !is_space(trimmed_start(s).first()),
    decreases s.len(),
{
    if s.len() > 0 && is_space(s.first()) {
        let rest = s.drop_first();
        lemma_trimmed_start(rest);
        assert forall|k: int| 0 <= k < s.len() - trimmed_start(s).len() implies is_space(
            #[trigger] s[k],
        ) by {
            if k > 0 {
                assert(rest[k - 1] == s[k]);
            }
        }
        assert(rest.skip(rest.len() - trimmed_start(rest).len()) == s.skip(
            s.len() - trimmed_start(rest).len(),
        ));
    } else {
        assert(s.skip(0) == s);
    }
}

/// What is left of trailing white space is the beginning of the text.
proof fn lemma_trimmed_end(s: Seq<char>)
    ensures
        trimmed_end(s).len() <= s.len(),
        trimmed_end(s) == s.take(trimmed_end(s).len() as int),
        forall|k: int| trimmed_end(s).len() <= k < s.len() ==> is_space(#[trigger] s[k]),
        trimmed_end(s).len() > 0 ==> !is_space(trimmed_end(s).last()),
    decreases s.len(),
{
    if s.len() > 0 && is_space(s.last()) {
        let rest = s.drop_last();
        lemma_trimmed_end(rest);
        assert forall|k: int| trimmed_end(s).len() <= k < s.len() implies is_space(
            #[trigger] s[k],
        ) by {
            if k < rest.len() {
                assert(rest[k] == s[k]);
            }
        }
        assert(rest.take(trimmed_end(rest).len() as int) == s.take(trimmed_end(rest).len() as int));
    } else {
        assert(s.take(s.len() as int) == s);
    }
}

/// A trimmed text stands in the text, has no white space at either end, and stays as it is when
/// it is trimmed again.
pub proof fn law_trimmed(s: Seq<char>)
    ensures
        contains_text(s, trimmed(s)),
        trimmed(s).len() > 0 ==> !is_space(trimmed(s).first()) && !is_space(trimmed(s).last()),
        trimmed(trimmed(s)) == trimmed(s),
{
    let middle = trimmed_start(s);
    lemma_trimmed_start(s);
    lemma_trimmed_end(middle);
    let i = s.len() - middle.len();
    assert(s.subrange(i, i + trimmed(s).len()) == trimmed(s));
    assert(occurs_at(s, trimmed(s), i));
    if trimmed(s).len() > 0 {
        assert(trimmed(s).first() == middle.first());
    }
}

/// The text without white space at either end.
pub fn trim(s: &str) -> (r: String)
    ensures
        r@ == trimmed(s@),
{
    let chars = chars_of(s);
    let mut from: usize = 0;
    assert(chars@.skip(0) == chars@);
    while from < chars.len() && is_whitespace(chars[from])
        invariant
            from <= chars@.len(),
            trimmed_start(chars@) == trimmed_start(chars@.skip(from as int)),
        decreases chars@.len() - from,
    {
        assert(chars@.skip(from as int).drop_first() == chars@.skip(from + 1));
        from += 1;
    }
    let mut to: usize = chars.len();
    assert(chars@.skip(from as int) == chars@.subrange(from as int, to as int));
    while from < to && is_whitespace(chars[to - 1])
        invariant
            from <= to <= chars@.len(),
            trimmed(chars@) == trimmed_end(chars@.subrange(from as int, to as int)),
        decreases to - from,
    {
        assert(chars@.subrange(from as int, to as int).drop_last() == chars@.subrange(
            from as int,
            to - 1,
        ));
        to -= 1;
    }
    string_of(&chars, from, to)
}

/// Whether the text is empty or white space throughout.
pub fn is_blank(s: &str) -> (r: bool)
    ensures
        r == (trimmed(s@).len() == 0),
{
    let text = trim(s);
    text.as_str().is_empty()
}

/// `s` without its white space.
pub open spec fn without_space(s: Seq<char>) -> Seq<char> {
    s.filter(|c: char| !is_space(c))
}

/// What is left when white space is removed are the other characters of the text.
pub proof fn law_without_space(s: Seq<char>, i: int)
    requires
        0 <= i < without_space(s).len(),
    ensures
        !is_space(without_space(s)[i]),
        s.contains(without_space(s)[i]),
    decreases s.len(),
{
    reveal(Seq::filter);
    let keep = |c: char| !is_space(c);
    let before = s.drop_last().filter(keep);
    if i < before.len() {
        assert(before == without_space(s.drop_last()));
        law_without_space(s.drop_last(), i);
        let k = choose|k: int| 0 <= k < s.drop_last().len() && s.drop_last()[k] == before[i];
        assert(s[k] == before[i]);
    } else {
        assert(s[s.len() - 1] == s.last());
    }
}

/// The text without its white space.
pub fn remove_whitespace(s: &str) -> (r: String)
    ensures
        r@ == without_space(s@),
{
    let chars = chars_of(s);
    let mut r: String = String::new();
    let mut i: usize = 0;
    let ghost keep = |c: char| !is_space(c);
    while i < chars.len()
        invariant
            i <= chars@.len(),
            keep == (|c: char| !is_space(c)),
            r@ == chars@.take(i as int).filter(keep),
        decreases chars@.len() - i,
    {
        proof {
            reveal(Seq::filter);
            assert(chars@.take(i + 1).drop_last() == chars@.take(i as int));
        }
        if !is_whitespace(chars[i]) {
            r.push(chars[i]);
        }
        i += 1;
    }
    assert(chars@.take(i as int) == chars@);
    r
}

// ---------------------------------------------------------------------------
// Case
// ---------------------------------------------------------------------------
/// `c` with an ASCII capital letter made small.
pub open spec fn lower_char(c: char) -> char {
    if 'A' <= c <= 'Z' {
        ((c as u8) + 32) as char
    } else {
        c
    }
}

/// `s` with its ASCII capital letters made small.
pub open spec fn lowered(s: Seq<char>) -> Seq<char> {
    s.map_values(|c: char| lower_char(c))
}

/// The text with its ASCII capital letters made small.
pub fn to_ascii_lowercase(s: &str) -> (r: String)
    ensures
        r@ == lowered(s@),
{
    let chars = chars_of(s);
    let mut r: String = String::new();
    let mut i: usize = 0;
    while i < chars.len()
        invariant
            i <= chars@.len(),
            r@ == lowered(chars@.take(i as int)),
        decreases chars@.len() - i,
    {
        let c = chars[i];
        if 'A' <= c && c <= 'Z' {
            r.push(((c as u8) + 32) as char);
        } else {
            r.push(c);
        }
        i += 1;
        assert(r@ == lowered(chars@.take(i as int)));
    }
    assert(chars@.take(i as int) == chars@);
    r
}

// ---------------------------------------------------------------------------
// Search
// ---------------------------------------------------------------------------
/// `p` stands in `s` at index `i`.
pub open spec fn occurs_at(s: Seq<char>, p: Seq<char>, i: int) -> bool {
    &&& 0 <= i
    &&& i + p.len() <= s.len()
    &&& s.subrange(i, i + p.len()) == p
}

/// `p` stands somewhere in `s`.
pub open spec fn contains_text(s: Seq<char>, p: Seq<char>) -> bool {
    exists|i: int| occurs_at(s, p, i)
}

/// The first index from `i` on at which `p` stands in `s`.
pub open spec fn find_from(s: Seq<char>, p: Seq<char>, i: int) -> Option<int>
    decreases s.len() - i + 1,
{
    if i < 0 || i + p.len() > s.len() {
        None
    } else if occurs_at(s, p, i) {
        Some(i)
    } else {
        find_from(s, p, i + 1)
    }
}

/// The first index at which `p` stands in `s`.
pub open spec fn find_text(s: Seq<char>, p: Seq<char>) -> Option<int> {
    find_from(s, p, 0)
}

/// The search finds the first of all occurrences, and fails only where there is none.
pub proof fn lemma_find_from(s: Seq<char>, p: Seq<char>, i: int)
    requires
        0 <= i,
    ensures
        match find_from(s, p, i) {
            Some(k) => i <= k && occurs_at(s, p, k) && forall|j: int|
                i <= j < k ==> !occurs_at(s, p, j),
            None => forall|j: int| i <= j ==> !occurs_at(s, p, j),
        },
    decreases s.len() - i + 1,
{
    if i + p.len() <= s.len() && !occurs_at(s, p, i) {
        lemma_find_from(s, p, i + 1);
    }
}

/// `find_text` succeeds exactly where the text is contained.
pub proof fn lemma_find_text(s: Seq<char>, p: Seq<char>)
    ensures
        find_text(s, p) is Some <==> contains_text(s, p),
        find_text(s, p) matches Some(k) ==> occurs_at(s, p, k) && forall|j: int|
            j < k ==> !occurs_at(s, p, j),
{
    lemma_find_from(s, p, 0);
}

/// Whether `p` stands in `s` at index `i`.
pub fn is_at(s: &Vec<char>, p: &Vec<char>, i: usize) -> (r: bool)
    requires
        i <= s@.len(),
    ensures
        r == occurs_at(s@, p@, i as int),
{
    let len: usize = s.len();
    if p.len() > len - i {
        return false;
    }
    let mut k: usize = 0;
    while k < p.len()
        invariant
            k <= p@.len(),
            i + p@.len() <= s@.len(),
            len == s@.len(),
            forall|j: int| 0 <= j < k ==> s@[i + j] == p@[j],
        decreases p@.len() - k,
    {
        if s[i + k] != p[k] {
            assert(s@.subrange(i as int, i + p@.len())[k as int] != p@[k as int]);
            return false;
        }
        k += 1;
    }
    assert(s@.subrange(i as int, i + p@.len()) == p@);
    true
}

/// The first index at which `p` stands in `s`.
pub fn find(s: &Vec<char>, p: &Vec<char>) -> (r: Option<usize>)
    ensures
        match r {
            Some(i) => find_text(s@, p@) == Some(i as int),
            None => find_text(s@, p@) is None,
        },
{
    let mut i: usize = 0;
    while p.len() <= s.len() - i
        invariant
            i <= s@.len(),
            find_text(s@, p@) == find_from(s@, p@, i as int),
        decreases s@.len() - i,
    {
        if is_at(s, p, i) {
            return Some(i);
        }
        if i == s.len() {
            assert(s@.subrange(i as int, i as int) == p@);
            return None;
        }
        i += 1;
    }
    None
}

/// Whether `p` stands somewhere in `s`.
pub fn contains(s: &str, p: &str) -> (r: bool)
    ensures
        r == contains_text(s@, p@),
{
    proof {
        lemma_find_text(s@, p@);
    }
    find(&chars_of(s), &chars_of(p)).is_some()
}

/// `s` begins with `p`.
pub open spec fn begins_with(s: Seq<char>, p: Seq<char>) -> bool {
    occurs_at(s, p, 0)
}

/// Whether `s` begins with `p`.
pub fn starts_with(s: &str, p: &str) -> (r: bool)
    ensures
        r == begins_with(s@, p@),
{
    is_at(&chars_of(s), &chars_of(p), 0)
}

// ---------------------------------------------------------------------------
// Lines
// ---------------------------------------------------------------------------
/// The lines of `s`: its pieces between line feeds, of which there is always at least one.
pub open spec fn text_lines(s: Seq<char>) -> Seq<Seq<char>>
    decreases s.len(),
{
    if s.len() == 0 {
        seq![Seq::<char>::empty()]
    } else {
        let before = text_lines(s.drop_last());
        if s.last() == '\n' {
            before.push(Seq::empty())
        } else {
            before.drop_last().push(before.last().push(s.last()))
        }
    }
}

/// Every text has a line.
pub proof fn lemma_text_lines_nonempty(s: Seq<char>)
    ensures
        text_lines(s).len() >= 1,
    decreases s.len(),
{
    if s.len() > 0 {
        lemma_text_lines_nonempty(s.drop_last());
    }
}

/// The characters of each line.
pub open spec fn line_views(lines: Seq<Vec<char>>) -> Seq<Seq<char>> {
    Seq::new(lines.len(), |i: int| lines[i]@)
}

/// The lines of the text.
pub fn lines_of(chars: &Vec<char>) -> (r: Vec<Vec<char>>)
    ensures
        line_views(r@) == text_lines(chars@),
        r@.len() >= 1,
{
    let mut done: Vec<Vec<char>> = Vec::new();
    let mut line: Vec<char> = Vec::new();
    let mut i: usize = 0;
    assert(text_lines(chars@.take(0)) == line_views(done@).push(line@));
    while i < chars.len()
        invariant
            i <= chars@.len(),
            text_lines(chars@.take(i as int)) == line_views(done@).push(line@),
        decreases chars@.len() - i,
    {
        let ghost before = line_views(done@).push(line@);
        assert(chars@.take(i + 1).drop_last() == chars@.take(i as int));
        assert(before.drop_last() == line_views(done@));
        if chars[i] == '\n' {
            done.push(line);
            line = Vec::new();
            assert(line_views(done@) == before);
        } else {
            line.push(chars[i]);
        }
        i += 1;
    }
    assert(chars@.take(i as int) == chars@);
    let ghost before = done@;
    done.push(line);
    assert(line_views(done@) == line_views(before).push(line@));
    done
}

/// The longest beginning of `s` with at most `n` lines.
pub open spec fn first_lines(s: Seq<char>, n: nat) -> Seq<char>
    decreases s.len(),
{
    if s.len() == 0 || text_lines(s).len() <= n {
        s
    } else {
        first_lines(s.drop_last(), n)
    }
}

/// A longer text has no fewer lines.
proof fn lemma_text_lines_take(s: Seq<char>, i: int)
    requires
        0 <= i <= s.len(),
    ensures
        text_lines(s.take(i)).len() <= text_lines(s).len(),
    decreases s.len(),
{
    if i < s.len() {
        assert(s.drop_last().take(i) == s.take(i));
        lemma_text_lines_take(s.drop_last(), i);
        lemma_text_lines_nonempty(s.drop_last());
    } else {
        assert(s.take(i) == s);
    }
}

/// What goes beyond too many lines is cut off.
proof fn lemma_first_lines(s: Seq<char>, n: nat, i: int)
    requires
        0 <= i < s.len(),
        text_lines(s.take(i + 1)).len() > n,
    ensures
        first_lines(s, n) == first_lines(s.take(i), n),
    decreases s.len(),
{
    lemma_text_lines_take(s, i + 1);
    if i + 1 < s.len() {
        assert(s.drop_last().take(i + 1) == s.take(i + 1));
        assert(s.drop_last().take(i) == s.take(i));
        lemma_first_lines(s.drop_last(), n, i);
    } else {
        assert(s.drop_last() == s.take(i));
    }
}

/// The longest beginning of the text with at most `n` lines, and how many lines that has.
pub fn head_of(s: &str, n: usize) -> (r: (String, usize))
    requires
        n >= 1,
    ensures
        r.0@ == first_lines(s@, n as nat),
        r.1 == text_lines(r.0@).len(),
        r.1 <= n,
{
    let chars = chars_of(s);
    let mut lines: usize = 1;
    let mut i: usize = 0;
    assert(chars@.take(0) == Seq::<char>::empty());
    while i < chars.len() && !(chars[i] == '\n' && lines == n)
        invariant
            i <= chars@.len(),
            1 <= lines <= n,
            lines == text_lines(chars@.take(i as int)).len(),
            first_lines(chars@.take(i as int), n as nat) == chars@.take(i as int),
        decreases chars@.len() - i,
    {
        assert(chars@.take(i + 1).drop_last() == chars@.take(i as int));
        if chars[i] == '\n' {
            lines += 1;
        }
        i += 1;
    }
    proof {
        if i < chars@.len() {
            assert(chars@.take(i + 1).drop_last() == chars@.take(i as int));
            lemma_first_lines(chars@, n as nat, i as int);
        } else {
            assert(chars@.take(i as int) == chars@);
        }
    }
    let head = string_of(&chars, 0, i);
    assert(head@ == chars@.take(i as int));
    (head, lines)
}

// ---------------------------------------------------------------------------
// UTF-8 offsets
// ---------------------------------------------------------------------------
/// The number of bytes of `s` in UTF-8.
pub open spec fn byte_len(s: Seq<char>) -> nat {
    encode_utf8(s).len()
}

/// The number of bytes of `c` in UTF-8.
pub open spec fn char_width(c: char) -> nat {
    if c as u32 <= 0x7f {
        1
    } else if c as u32 <= 0x7ff {
        2
    } else if c as u32 <= 0xffff {
        3
    } else {
        4
    }
}

/// The number of bytes of `c` in UTF-8.
pub fn width_of(c: char) -> (r: usize)
    ensures
        r == char_width(c),
{
    let u: u32 = c as u32;
    if u <= 0x7f {
        1
    } else if u <= 0x7ff {
        2
    } else if u <= 0xffff {
        3
    } else {
        4
    }
}

/// The bytes of a concatenation are those of its parts.
pub proof fn lemma_byte_len_concat(a: Seq<char>, b: Seq<char>)
    ensures
        byte_len(a + b) == byte_len(a) + byte_len(b),
    decreases a.len(),
{
    if a.len() == 0 {
        assert(a + b == b);
    } else {
        assert((a + b).drop_first() == a.drop_first() + b);
        lemma_byte_len_concat(a.drop_first(), b);
    }
}

/// One more character adds its width.
pub proof fn lemma_byte_len_push(s: Seq<char>, c: char)
    ensures
        byte_len(s.push(c)) == byte_len(s) + char_width(c),
{
    let one = seq![c];
    assert(s.push(c) == s + one);
    lemma_byte_len_concat(s, one);
    assert(one.drop_first() == Seq::<char>::empty());
    assert(encode_utf8(one.drop_first()).len() == 0);
    char_is_scalar(c);
}

/// A prefix has no more bytes than the whole.
pub proof fn lemma_byte_len_take(s: Seq<char>, i: int)
    requires
        0 <= i <= s.len(),
    ensures
        byte_len(s.take(i)) <= byte_len(s),
{
    lemma_byte_len_concat(s.take(i), s.skip(i));
    assert(s.take(i) + s.skip(i) == s);
}

// ---------------------------------------------------------------------------
// What the notions of this module come to, character by character
// ---------------------------------------------------------------------------
/// White space is the tabulators and line breaks of ASCII, the blank, and the blanks and line
/// breaks beyond ASCII.
pub proof fn law_white_space(c: char)
    ensures
        is_space(c) <==> ('\t' <= c <= '\r' || c == ' ' || c == '\u{85}' || c == '\u{a0}' || c
            == '\u{1680}' || '\u{2000}' <= c <= '\u{200a}' || c == '\u{2028}' || c == '\u{2029}'
            || c == '\u{202f}' || c == '\u{205f}' || c == '\u{3000}'),
{
}

/// Trimming cuts off the white space before the first and behind the last other character, and
/// nothing else; nothing is left just where there is no other character.
pub proof fn law_trimming_cuts_outer_space(s: Seq<char>)
    ensures
        exists|from: int, to: int|
            {
                &&& 0 <= from <= to <= s.len()
                &&& trimmed(s) == #[trigger] s.subrange(from, to)
                &&& forall|k: int| 0 <= k < from ==> is_space(#[trigger] s[k])
                &&& forall|k: int| to <= k < s.len() ==> is_space(#[trigger] s[k])
                &&& from < to ==> !is_space(s[from]) && !is_space(s[to - 1])
            },
        trimmed(s).len() == 0 <==> forall|k: int| 0 <= k < s.len() ==> is_space(#[trigger] s[k]),
{
    let middle = trimmed_start(s);
    lemma_trimmed_start(s);
    lemma_trimmed_end(middle);
    let from = s.len() - middle.len();
    let to = from + trimmed(s).len();
    assert(trimmed(s) == s.subrange(from, to));
    assert forall|k: int| to <= k < s.len() implies is_space(#[trigger] s[k]) by {
        assert(middle[k - from] == s[k]);
    }
    if from < to {
        assert(trimmed(s).first() == s[from]);
        assert(middle.first() == s[from]);
        assert(trimmed(s).last() == s[to - 1]);
    }
}

/// Removing white space removes each white space character and keeps each other one in its order.
pub proof fn law_remove_each_space(s: Seq<char>, c: char)
    ensures
        without_space(Seq::empty()) == Seq::<char>::empty(),
        is_space(c) ==> without_space(s.push(c)) == without_space(s),
        !is_space(c) ==> without_space(s.push(c)) == without_space(s).push(c),
{
    reveal(Seq::filter);
    assert(s.push(c).drop_last() == s);
}

/// A text without white space stays as it is when white space is removed.
pub proof fn law_nothing_to_remove(s: Seq<char>)
    requires
        forall|k: int| 0 <= k < s.len() ==> !is_space(#[trigger] s[k]),
    ensures
        without_space(s) == s,
    decreases s.len(),
{
    reveal(Seq::filter);
    if s.len() > 0 {
        assert(!is_space(s[s.len() - 1]));
        assert forall|k: int| 0 <= k < s.drop_last().len() implies !is_space(
            #[trigger] s.drop_last()[k],
        ) by {
            assert(!is_space(s[k]));
        }
        law_nothing_to_remove(s.drop_last());
        assert(s.drop_last().push(s.last()) == s);
    }
}

/// Making letters small changes the ASCII capital letters alone, each to the letter 32 places on.
pub proof fn law_lowered(s: Seq<char>)
    ensures
        lowered(s).len() == s.len(),
        forall|i: int|
            0 <= i < s.len() && 'A' <= s[i] <= 'Z' ==> (#[trigger] lowered(s)[i]) as int == s[i] as int
                + 32,
        forall|i: int|
            0 <= i < s.len() && !('A' <= s[i] <= 'Z') ==> #[trigger] lowered(s)[i] == s[i],
{
    assert forall|i: int| 0 <= i < s.len() && 'A' <= s[i] <= 'Z' implies (
    #[trigger] lowered(s)[i]) as int == s[i] as int + 32 by {
        assert(lowered(s)[i] == lower_char(s[i]));
    }
}

/// A text stands at an index just if its characters follow one another from there on.
pub proof fn law_occurs_at(s: Seq<char>, p: Seq<char>, i: int)
    ensures
        occurs_at(s, p, i) <==> 0 <= i && i + p.len() <= s.len() && forall|j: int|
            0 <= j < p.len() ==> s[i + j] == #[trigger] p[j],
        begins_with(s, p) <==> p.len() <= s.len() && s.take(p.len() as int) == p,
{
    if 0 <= i && i + p.len() <= s.len() {
        let part = s.subrange(i, i + p.len());
        if part == p {
            assert forall|j: int| 0 <= j < p.len() implies s[i + j] == #[trigger] p[j] by {
                assert(part[j] == s[i + j]);
            }
        }
        if forall|j: int| 0 <= j < p.len() ==> s[i + j] == #[trigger] p[j] {
            assert(part =~= p);
        }
    }
    if p.len() <= s.len() {
        assert(s.subrange(0, p.len() as int) == s.take(p.len() as int));
    }
}

/// A text is contained just where it has something, or nothing, before and behind it; the search
/// finds the first such place.
pub proof fn law_search(before: Seq<char>, p: Seq<char>, behind: Seq<char>, s: Seq<char>)
    ensures
        contains_text(before + p + behind, p),
        find_text(before + p + behind, p) matches Some(k) && 0 <= k <= before.len(),
        contains_text(s, p) <==> exists|i: int|
            0 <= i && i + p.len() <= s.len() && #[trigger] s.subrange(i, i + p.len()) == p,
        find_text(s, p) is Some <==> contains_text(s, p),
        find_text(s, p) matches Some(k) ==> 0 <= k && k + p.len() <= s.len() && s.subrange(
            k,
            k + p.len(),
        ) == p && forall|j: int| 0 <= j < k ==> #[trigger] s.subrange(j, j + p.len()) != p,
{
    let whole = before + p + behind;
    let at = before.len() as int;
    assert(whole.subrange(at, at + p.len()) =~= p);
    assert(occurs_at(whole, p, at));
    lemma_find_text(whole, p);
    lemma_find_text(s, p);
    if exists|i: int| 0 <= i && i + p.len() <= s.len() && #[trigger] s.subrange(i, i + p.len()) == p {
        let i = choose|i: int|
            0 <= i && i + p.len() <= s.len() && #[trigger] s.subrange(i, i + p.len()) == p;
        assert(occurs_at(s, p, i));
    }
    if let Some(k) = find_text(s, p) {
        assert forall|j: int| 0 <= j < k implies #[trigger] s.subrange(j, j + p.len()) != p by {
            assert(!occurs_at(s, p, j));
        }
    }
}

/// A line feed ends a line, and nothing else does: the lines of two texts with a line feed between
/// them are those of the one and then those of the other, and a text without one is one line.
pub proof fn law_lines(a: Seq<char>, b: Seq<char>)
    ensures
        text_lines(a.push('\n') + b) == text_lines(a) + text_lines(b),
        !a.contains('\n') ==> text_lines(a) == Seq::<Seq<char>>::empty().push(a),
{
    lemma_lines_concat(a, b);
    if !a.contains('\n') {
        lemma_one_line(a);
    }
}

/// The lines of two texts with a line feed between them.
proof fn lemma_lines_concat(a: Seq<char>, b: Seq<char>)
    ensures
        text_lines(a.push('\n') + b) == text_lines(a) + text_lines(b),
    decreases b.len(),
{
    let whole = a.push('\n') + b;
    if b.len() == 0 {
        assert(whole == a.push('\n'));
        assert(whole.drop_last() == a);
        assert(text_lines(b) == Seq::<Seq<char>>::empty().push(Seq::<char>::empty()));
        assert(text_lines(whole) =~= text_lines(a) + text_lines(b));
    } else {
        let shorter = b.drop_last();
        lemma_lines_concat(a, shorter);
        lemma_text_lines_nonempty(shorter);
        assert(whole.drop_last() == a.push('\n') + shorter);
        assert(whole.last() == b.last());
        let before = text_lines(a) + text_lines(shorter);
        assert(before.last() == text_lines(shorter).last());
        assert(before.drop_last() == text_lines(a) + text_lines(shorter).drop_last());
        assert(text_lines(whole) =~= text_lines(a) + text_lines(b));
    }
}

/// A text without line feeds is one line.
proof fn lemma_one_line(s: Seq<char>)
    requires
        !s.contains('\n'),
    ensures
        text_lines(s) == Seq::<Seq<char>>::empty().push(s),
    decreases s.len(),
{
    if s.len() == 0 {
        assert(s =~= Seq::<char>::empty());
        assert(text_lines(s) =~= Seq::<Seq<char>>::empty().push(s));
    } else {
        let shorter = s.drop_last();
        assert forall|k: int| 0 <= k < shorter.len() implies shorter[k] != '\n' by {
            assert(s[k] != '\n') by {
                if s[k] == '\n' {
                    assert(s.contains('\n'));
                }
            }
        }
        assert(s[s.len() - 1] != '\n') by {
            if s[s.len() - 1] == '\n' {
                assert(s.contains('\n'));
            }
        }
        lemma_one_line(shorter);
        assert(shorter.push(s.last()) == s);
        assert(text_lines(s) =~= Seq::<Seq<char>>::empty().push(s));
    }
}

/// The first lines are a beginning of the text: all of it if it has no more lines than that, else
/// what stands before the line feed that ends the last of them.
pub proof fn law_first_lines(s: Seq<char>, n: nat)
    requires
        n >= 1,
    ensures
        text_lines(s).len() <= n ==> first_lines(s, n) == s,
        text_lines(s).len() > n ==> {
            let k = first_lines(s, n).len() as int;
            &&& k < s.len()
            &&& first_lines(s, n) == s.take(k)
            &&& s[k] == '\n'
            &&& text_lines(s.take(k)).len() == n
        },
    decreases s.len(),
{
    if s.len() == 0 {
        assert(text_lines(s).len() == 1);
    } else if text_lines(s).len() > n {
        let shorter = s.drop_last();
        lemma_text_lines_nonempty(shorter);
        law_first_lines(shorter, n);
        let k = first_lines(s, n).len() as int;
        if text_lines(shorter).len() <= n {
            assert(s.take(k) == shorter);
        } else {
            assert(s.take(k) == shorter.take(k));
        }
    }
}

/// The lines of a list of lines are viewed one by one, and bytes are those of UTF-8.
pub proof fn law_text_measures(lines: Seq<Vec<char>>, s: Seq<char>)
    ensures
        line_views(lines).len() == lines.len(),
        forall|i: int| 0 <= i < lines.len() ==> #[trigger] line_views(lines)[i] == lines[i]@,
        byte_len(s) == encode_utf8(s).len(),
{
}

} // verus!
