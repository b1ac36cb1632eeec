//! Text as a sequence of characters: the operations the assistant needs on it, each with an exact
//! contract over `Seq<char>`.

use vstd::prelude::*;
use vstd::slice::slice_subrange;
use vstd::string::*;
use vstd::utf8::*;

verus! {

/// `String::push`: the character is appended to the text.
pub assume_specification[ String::push ](s: &mut String, c: char)
    ensures
        final(s)@ == old(s)@.push(c),
;

/// The contents of a list of strings.
pub open spec fn texts(list: Seq<String>) -> Seq<Seq<char>> {
    Seq::new(list.len(), |i: int| list[i]@)
}

/// The characters of a text, in order.
pub fn chars_of(s: &str) -> (r: Vec<char>)
    ensures
        r@ == s@,
{
    let mut out: Vec<char> = Vec::new();
    for c in it: s.chars()
        invariant
            out@ == s@.take(it.index() as int),
            it.seq() == s@,
    {
        out.push(c);
        assert(s@.take(it.index() + 1) == s@.take(it.index() as int).push(s@[it.index() as int]));
    }
    assert(s@.take(s@.len() as int) == s@);
    out
}

/// The text made of the given characters.
pub fn string_of(chars: &[char]) -> (r: String)
    ensures
        r@ == chars@,
{
    let mut out = String::new();
    let mut i: usize = 0;
    while i < chars.len()
        invariant
            i <= chars@.len(),
            out@ == chars@.take(i as int),
        decreases chars@.len() - i,
    {
        out.push(chars[i]);
        i = i + 1;
        assert(chars@.take(i as int) == chars@.take(i - 1).push(chars@[i - 1]));
    }
    assert(chars@.take(chars@.len() as int) == chars@);
    out
}

/// The contents of an optional list of strings.
pub open spec fn opt_texts(list: Option<Vec<String>>) -> Option<Seq<Seq<char>>> {
    match list {
        Some(v) => Some(texts(v@)),
        None => None,
    }
}

/// The content of an optional string.
pub open spec fn opt_string(s: Option<String>) -> Option<Seq<char>> {
    match s {
        Some(t) => Some(t@),
        None => None,
    }
}

/// The two texts, one after the other.
pub fn cat(a: &str, b: &str) -> (r: String)
    ensures
        r@ == a@ + b@,
{
    let mut out = a.to_string();
    out.append(b);
    out
}

/// Whether two texts are the same.
pub fn same(a: &str, b: &str) -> (r: bool)
    ensures
        r == (a@ == b@),
{
    let x = a.as_bytes();
    let y = b.as_bytes();
    proof {
        encode_utf8_decode_utf8(a@);
        encode_utf8_decode_utf8(b@);
    }
    if x.len() != y.len() {
        return false;
    }
    let mut i: usize = 0;
    while i < x.len()
        invariant
            i <= x@.len(),
            x@.len() == y@.len(),
            x@ == encode_utf8(a@),
            y@ == encode_utf8(b@),
            x@.take(i as int) == y@.take(i as int),
        decreases x@.len() - i,
    {
        if x[i] != y[i] {
            return false;
        }
        i = i + 1;
        assert(x@.take(i as int) == x@.take(i - 1).push(x@[i - 1]));
        assert(y@.take(i as int) == y@.take(i - 1).push(y@[i - 1]));
    }
    assert(x@.take(i as int) == x@);
    assert(y@.take(i as int) == y@);
    true
}

/// Whether `prefix` begins the text.
pub fn starts_with(s: &str, prefix: &str) -> (r: bool)
    ensures
        r == prefix@.is_prefix_of(s@),
{
    let x = chars_of(s);
    let p = chars_of(prefix);
    occurs_at(x.as_slice(), p.as_slice(), 0)
}

/// Whether the text ends with the character.
pub fn ends_with_char(s: &str, c: char) -> (r: bool)
    ensures
        r == (s@.len() > 0 && s@.last() == c),
{
    let x = chars_of(s);
    x.len() > 0 && x[x.len() - 1] == c
}

/// The text without its first `n` characters.
pub fn skip_chars(s: &str, n: usize) -> (r: String)
    requires
        n <= s@.len(),
    ensures
        r@ == s@.skip(n as int),
{
    let x = chars_of(s);
    string_of(slice_subrange(x.as_slice(), n, x.len()))
}

/// At most the first `n` elements of a sequence.
pub open spec fn clipped<T>(s: Seq<T>, n: nat) -> Seq<T> {
    if s.len() <= n {
        s
    } else {
        s.take(n as int)
    }
}

/// At most the first `n` characters of a text.
pub fn clip(s: &str, n: usize) -> (r: String)
    ensures
        r@ == clipped(s@, n as nat),
{
    let x = chars_of(s);
    if x.len() <= n {
        string_of(x.as_slice())
    } else {
        string_of(slice_subrange(x.as_slice(), 0, n))
    }
}

// ---- Substrings --------------------------------------------------------------------------------

/// `pattern` stands in `s` at position `i`.
pub open spec fn found_at(s: Seq<char>, pattern: Seq<char>, i: int) -> bool {
    0 <= i && i + pattern.len() <= s.len() && s.subrange(i, i + pattern.len()) == pattern
}

/// `pattern` stands somewhere in `s`.
pub open spec fn contained(s: Seq<char>, pattern: Seq<char>) -> bool {
    exists|i: int| found_at(s, pattern, i)
}

fn occurs_at(s: &[char], pattern: &[char], i: usize) -> (r: bool)
    ensures
        r == found_at(s@, pattern@, i as int),
        i == 0 ==> r == pattern@.is_prefix_of(s@),
{
    let n = s.len();
    if i > n || pattern.len() > n - i {
        return false;
    }
    let mut k: usize = 0;
    while k < pattern.len()
        invariant
            k <= pattern@.len(),
            n == s@.len(),
            i + pattern@.len() <= n,
            forall|j: int| 0 <= j < k ==> s@[i + j] == #[trigger] pattern@[j],
        decreases pattern@.len() - k,
    {
        if s[i + k] != pattern[k] {
            assert(s@.subrange(i as int, i + pattern@.len())[k as int] != pattern@[k as int]);
            return false;
        }
        k = k + 1;
    }
    assert(s@.subrange(i as int, i + pattern@.len()) =~= pattern@);
    true
}

/// Position of the first occurrence of `pattern`, if there is one.
pub fn find(s: &[char], pattern: &[char]) -> (r: Option<usize>)
    ensures
        match r {
            Some(i) => found_at(s@, pattern@, i as int) && forall|j: int|
                0 <= j < i ==> !found_at(s@, pattern@, j),
            None => !contained(s@, pattern@),
        },
{
    let n = s.len();
    let mut i: usize = 0;
    while i < n
        invariant
            i <= n,
            n == s@.len(),
            forall|j: int| 0 <= j < i ==> !found_at(s@, pattern@, j),
        decreases n - i,
    {
        if occurs_at(s, pattern, i) {
            return Some(i);
        }
        i = i + 1;
    }
    if occurs_at(s, pattern, n) {
        Some(n)
    } else {
        None
    }
}

/// Whether `pattern` stands somewhere in the text.
pub fn contains(s: &str, pattern: &str) -> (r: bool)
    ensures
        r == contained(s@, pattern@),
{
    let x = chars_of(s);
    let p = chars_of(pattern);
    match find(x.as_slice(), p.as_slice()) {
        Some(i) => {
            assert(found_at(s@, pattern@, i as int));
            true
        },
        None => false,
    }
}

/// `after` is `before` with the first occurrence of `old_text` replaced by `new_text`.
pub open spec fn first_replaced(
    before: Seq<char>,
    old_text: Seq<char>,
    new_text: Seq<char>,
    after: Seq<char>,
) -> bool {
    exists|i: int|
        {
            &&& #[trigger] found_at(before, old_text, i)
            &&& forall|j: int| 0 <= j < i ==> !found_at(before, old_text, j)
            &&& after == before.take(i) + new_text + before.skip(i + old_text.len())
        }
}

/// Replaces the first occurrence of `old_text`; `None` when there is none.
pub fn replace_first(s: &str, old_text: &str, new_text: &str) -> (r: Option<String>)
    ensures
        match r {
            Some(t) => first_replaced(s@, old_text@, new_text@, t@),
            None => !contained(s@, old_text@),
        },
{
    let x = chars_of(s);
    let p = chars_of(old_text);
    match find(x.as_slice(), p.as_slice()) {
        Some(i) => {
            let n = x.len();
            assert(i + p@.len() <= n);
            let mut out = string_of(slice_subrange(x.as_slice(), 0, i));
            out.append(new_text);
            let rest = string_of(slice_subrange(x.as_slice(), i + p.len(), n));
            out.append(&rest);
            assert(s@.subrange(0, i as int) == s@.take(i as int));
            assert(s@.subrange(i + p@.len(), s@.len() as int) == s@.skip(i + old_text@.len()));
            assert(found_at(s@, old_text@, i as int));
            Some(out)
        },
        None => None,
    }
}

// ---- Case --------------------------------------------------------------------------------------

/// The capital letter for a small ASCII letter; any other character as it is.
pub open spec fn ascii_upper(c: char) -> char {
    if 'a' <= c <= 'z' {
        (c as int - 32) as char
    } else {
        c
    }
}

/// The small letter for a capital ASCII letter; any other character as it is.
pub open spec fn ascii_lower(c: char) -> char {
    if 'A' <= c <= 'Z' {
        (c as int + 32) as char
    } else {
        c
    }
}

/// The text with every ASCII letter small.
pub open spec fn lowered(s: Seq<char>) -> Seq<char> {
    s.map_values(|c: char| ascii_lower(c))
}

/// The text in capital letters by the tables of Unicode.
pub uninterp spec fn unicode_upper(s: Seq<char>) -> Seq<char>;

/// `str::to_uppercase`: the result depends on the text alone.
pub assume_specification[ str::to_uppercase ](s: &str) -> (r: String)
    ensures
        r@ == unicode_upper(s@),
;

/// The text in capital letters: letter by letter for ASCII, by the tables of Unicode otherwise.
pub open spec fn uppered(s: Seq<char>) -> Seq<char> {
    if is_ascii_chars(s) {
        s.map_values(|c: char| ascii_upper(c))
    } else {
        unicode_upper(s)
    }
}

/// The text in capital letters.
pub fn upper(s: &str) -> (r: String)
    ensures
        r@ == uppered(s@),
{
    if !s.is_ascii() {
        return s.to_uppercase();
    }
    let x = chars_of(s);
    let mut out = String::new();
    let mut i: usize = 0;
    let ghost all = s@.map_values(|c: char| ascii_upper(c));
    while i < x.len()
        invariant
            i <= x@.len(),
            x@ == s@,
            is_ascii_chars(s@),
            all == s@.map_values(|c: char| ascii_upper(c)),
            out@ == all.take(i as int),
        decreases x@.len() - i,
    {
        let c = x[i];
        assert(c == s@[i as int]);
        let d: char = if 'a' <= c && c <= 'z' {
            (c as u8 - 32) as char
        } else {
            c
        };
        out.push(d);
        i = i + 1;
        assert(all.take(i as int) == all.take(i - 1).push(all[i - 1]));
    }
    assert(all.take(i as int) == all);
    out
}

/// The text with every ASCII letter small.
pub fn lower(s: &str) -> (r: String)
    ensures
        r@ == lowered(s@),
{
    let x = chars_of(s);
    let mut out = String::new();
    let mut i: usize = 0;
    let ghost all = lowered(s@);
    while i < x.len()
        invariant
            i <= x@.len(),
            x@ == s@,
            all == lowered(s@),
            out@ == all.take(i as int),
        decreases x@.len() - i,
    {
        let c = x[i];
        let d: char = if 'A' <= c && c <= 'Z' {
            (c as u8 + 32) as char
        } else {
            c
        };
        out.push(d);
        i = i + 1;
        assert(all.take(i as int) == all.take(i - 1).push(all[i - 1]));
    }
    assert(all.take(i as int) == all);
    out
}

// ---- White space -------------------------------------------------------------------------------

/// The characters with the Unicode property `White_Space`.
pub open spec fn is_white(c: char) -> bool {
    ||| '\u{9}' <= c <= '\u{d}'
    ||| c == ' '
    ||| c == '\u{85}'
    ||| c == '\u{a0}'
    ||| c == '\u{1680}'
    ||| '\u{2000}' <= c <= '\u{200a}'
    ||| c == '\u{2028}'
    ||| c == '\u{2029}'
    ||| c == '\u{202f}'
    ||| c == '\u{205f}'
    ||| c == '\u{3000}'
}

/// Whether a character is white space.
pub fn is_whitespace(c: char) -> (r: bool)
    ensures
        r == is_white(c),
{
    ('\u{9}' <= c && c <= '\u{d}') || c == ' ' || c == '\u{85}' || c == '\u{a0}' || c == '\u{1680}'
        || ('\u{2000}' <= c && c <= '\u{200a}') || c == '\u{2028}' || c == '\u{2029}' || c
        == '\u{202f}' || c == '\u{205f}' || c == '\u{3000}'
}

/// Nothing but white space.
pub open spec fn blank(s: Seq<char>) -> bool {
    forall|i: int| 0 <= i < s.len() ==> is_white(#[trigger] s[i])
}

/// The text without the white space it begins with.
pub open spec fn trimmed_start(s: Seq<char>) -> Seq<char>
    decreases s.len(),
{
    if s.len() > 0 && is_white(s[0]) {
        trimmed_start(s.skip(1))
    } else {
        s
    }
}

/// The text without the white space it ends with.
pub open spec fn trimmed_end(s: Seq<char>) -> Seq<char>
    decreases s.len(),
{
    if s.len() > 0 && is_white(s.last()) {
        trimmed_end(s.drop_last())
    } else {
        s
    }
}

/// The text without white space at either end.
pub open spec fn trimmed(s: Seq<char>) -> Seq<char> {
    trimmed_end(trimmed_start(s))
}

/// A trimmed text is empty exactly when the text is blank, and neither begins nor ends with white
/// space otherwise.
pub proof fn lemma_trimmed(s: Seq<char>)
    ensures
        (trimmed(s).len() == 0) == blank(s),
        trimmed(s).len() > 0 ==> !is_white(trimmed(s)[0]) && !is_white(trimmed(s).last()),
{
    lemma_trimmed_start(s);
    lemma_trimmed_end(trimmed_start(s));
}

proof fn lemma_trimmed_start(s: Seq<char>)
    ensures
        trimmed_start(s).len() > 0 ==> !is_white(trimmed_start(s)[0]),
        blank(s) == blank(trimmed_start(s)),
        blank(s) ==> trimmed_start(s).len() == 0,
    decreases s.len(),
{
    if s.len() > 0 && is_white(s[0]) {
        lemma_trimmed_start(s.skip(1));
        assert forall|i: int| blank(s.skip(1)) && 0 <= i < s.len() implies is_white(
            #[trigger] s[i],
        ) by {
            if i > 0 {
                assert(s[i] == s.skip(1)[i - 1]);
            }
        }
        assert forall|i: int| blank(s) && 0 <= i < s.len() - 1 implies is_white(
            #[trigger] s.skip(1)[i],
        ) by {
            assert(is_white(s[i + 1]));
        }
    }
}

proof fn lemma_trimmed_end(s: Seq<char>)
    ensures
        trimmed_end(s).len() > 0 ==> !is_white(trimmed_end(s).last()),
        trimmed_end(s).len() > 0 ==> trimmed_end(s)[0] == s[0],
        (trimmed_end(s).len() == 0) == blank(s),
    decreases s.len(),
{
    if s.len() > 0 && is_white(s.last()) {
        lemma_trimmed_end(s.drop_last());
        assert forall|i: int| blank(s.drop_last()) && 0 <= i < s.len() implies is_white(
            #[trigger] s[i],
        ) by {
            if i < s.len() - 1 {
                assert(s[i] == s.drop_last()[i]);
            }
        }
    }
}

/// The text without white space at either end.
pub fn trim(s: &str) -> (r: String)
    ensures
        r@ == trimmed(s@),
{
    let x = chars_of(s);
    let mut a: usize = 0;
    assert(x@.skip(0) == x@);
    while a < x.len() && is_whitespace(x[a])
        invariant
            a <= x@.len(),
            trimmed_start(x@.skip(a as int)) == trimmed_start(x@),
        decreases x@.len() - a,
    {
        assert(x@.skip(a as int).skip(1) == x@.skip(a + 1));
        a = a + 1;
    }
    let ghost rest = x@.skip(a as int);
    let mut b: usize = x.len();
    assert(rest == x@.subrange(a as int, b as int));
    while b > a && is_whitespace(x[b - 1])
        invariant
            a <= b <= x@.len(),
            trimmed_end(x@.subrange(a as int, b as int)) == trimmed_end(rest),
        decreases b,
    {
        assert(x@.subrange(a as int, b as int).drop_last() == x@.subrange(a as int, b - 1));
        assert(x@.subrange(a as int, b as int).last() == x@[b - 1]);
        b = b - 1;
    }
    assert(b > a ==> x@.subrange(a as int, b as int).last() == x@[b - 1]);
    string_of(slice_subrange(x.as_slice(), a, b))
}

/// Whether the text holds nothing but white space.
pub fn is_blank(s: &str) -> (r: bool)
    ensures
        r == blank(s@),
        r == (trimmed(s@).len() == 0),
{
    proof {
        lemma_trimmed(s@);
    }
    let x = chars_of(s);
    let mut i: usize = 0;
    while i < x.len()
        invariant
            i <= x@.len(),
            x@ == s@,
            blank(s@) == (trimmed(s@).len() == 0),
            forall|j: int| 0 <= j < i ==> is_white(#[trigger] x@[j]),
        decreases x@.len() - i,
    {
        if !is_whitespace(x[i]) {
            return false;
        }
        i = i + 1;
    }
    true
}

/// The text without the `c`s it ends with.
pub open spec fn without_trailing(s: Seq<char>, c: char) -> Seq<char>
    decreases s.len(),
{
    if s.len() > 0 && s.last() == c {
        without_trailing(s.drop_last(), c)
    } else {
        s
    }
}

/// The text without the `c`s it ends with.
pub fn trim_trailing(s: &str, c: char) -> (r: String)
    ensures
        r@ == without_trailing(s@, c),
{
    let x = chars_of(s);
    let mut b: usize = x.len();
    assert(x@.take(b as int) == x@);
    while b > 0 && x[b - 1] == c
        invariant
            b <= x@.len(),
            without_trailing(x@.take(b as int), c) == without_trailing(x@, c),
        decreases b,
    {
        assert(x@.take(b as int).drop_last() == x@.take(b - 1));
        b = b - 1;
    }
    assert(b > 0 ==> x@.take(b as int).last() == x@[b - 1]);
    assert(x@.subrange(0, b as int) == x@.take(b as int));
    string_of(slice_subrange(x.as_slice(), 0, b))
}

// ---- Laws --------------------------------------------------------------------------------------

/// White space among the ASCII characters: the blank, the tab and the characters that end lines or
/// pages. No character that is seen is white.
pub proof fn law_ascii_white_space(c: char)
    requires
        c as u32 <= 127,
    ensures
        is_white(c) <==> c as u32 == 32 || 9 <= c as u32 <= 13,
{
}

proof fn lemma_start_is_cut_off(s: Seq<char>)
    ensures
        trimmed_start(s).len() <= s.len(),
        trimmed_start(s) == s.skip(s.len() - trimmed_start(s).len()),
        blank(s.take(s.len() - trimmed_start(s).len())),
    decreases s.len(),
{
    if s.len() > 0 && is_white(s[0]) {
        lemma_start_is_cut_off(s.skip(1));
        let n = s.len() - trimmed_start(s).len();
        assert(s.skip(1).skip(n - 1) == s.skip(n));
        assert forall|i: int| 0 <= i < s.take(n).len() implies is_white(#[trigger] s.take(n)[i]) by {
            if i > 0 {
                assert(s.take(n)[i] == s.skip(1).take(n - 1)[i - 1]);
            }
        }
    } else {
        assert(s.skip(0) == s);
    }
}

proof fn lemma_end_is_cut_off(s: Seq<char>)
    ensures
        trimmed_end(s).len() <= s.len(),
        trimmed_end(s) == s.take(trimmed_end(s).len() as int),
        blank(s.skip(trimmed_end(s).len() as int)),
    decreases s.len(),
{
    if s.len() > 0 && is_white(s.last()) {
        lemma_end_is_cut_off(s.drop_last());
        let n = trimmed_end(s).len() as int;
        assert(s.drop_last().take(n) == s.take(n));
        assert forall|i: int| 0 <= i < s.skip(n).len() implies is_white(#[trigger] s.skip(n)[i]) by {
            if i < s.skip(n).len() - 1 {
                assert(s.skip(n)[i] == s.drop_last().skip(n)[i]);
            }
        }
    } else {
        assert(s.take(s.len() as int) == s);
    }
}

/// Trimming takes away white space at both ends and nothing else: the text is white space, the
/// trimmed text, and white space again; and the trimmed text neither begins nor ends with any.
pub proof fn law_trimming_takes_white_space(s: Seq<char>)
    ensures
        exists|a: int| #[trigger]
            s.subrange(a, a + trimmed(s).len()) == trimmed(s) && 0 <= a && a + trimmed(s).len()
                <= s.len() && blank(s.take(a)) && blank(s.skip(a + trimmed(s).len())),
        trimmed(s).len() > 0 ==> !is_white(trimmed(s)[0]) && !is_white(trimmed(s).last()),
{
    lemma_trimmed(s);
    lemma_start_is_cut_off(s);
    let rest = trimmed_start(s);
    lemma_end_is_cut_off(rest);
    let a = s.len() - rest.len();
    let n = trimmed(s).len();
    assert(s.subrange(a, a + n) == rest.take(n as int));
    assert(s.skip(a + n) == rest.skip(n as int));
}

/// A text without white space around it stays as it is.
pub proof fn law_trimmed_texts_stay(s: Seq<char>)
    requires
        s.len() == 0 || (!is_white(s[0]) && !is_white(s.last())),
    ensures
        trimmed(s) == s,
{
}

/// Clipping keeps the beginning of a sequence, as long as may be and no longer.
pub proof fn law_clipping_keeps_the_beginning<T>(s: Seq<T>, n: nat)
    ensures
        clipped(s, n).is_prefix_of(s),
        clipped(s, n).len() == if s.len() < n {
            s.len()
        } else {
            n
        },
        s.len() <= n ==> clipped(s, n) == s,
{
    assert(clipped(s, n) == s.subrange(0, clipped(s, n).len() as int));
}

/// Small and capital letters: the length stays, ASCII letters change their case by 32 places, and
/// every other character of an ASCII text stays.
pub proof fn law_letters_change_case(s: Seq<char>, i: int)
    requires
        0 <= i < s.len(),
    ensures
        lowered(s).len() == s.len(),
        'A' <= s[i] <= 'Z' ==> lowered(s)[i] as int == s[i] as int + 32,
        !('A' <= s[i] <= 'Z') ==> lowered(s)[i] == s[i],
        is_ascii_chars(s) ==> uppered(s).len() == s.len(),
        is_ascii_chars(s) && 'a' <= s[i] <= 'z' ==> uppered(s)[i] as int == s[i] as int - 32,
        is_ascii_chars(s) && !('a' <= s[i] <= 'z') ==> uppered(s)[i] == s[i],
        !is_ascii_chars(s) ==> uppered(s) == unicode_upper(s),
{
}

/// A text holds a pattern exactly when it is made of something, the pattern, and something.
pub proof fn law_contained_in_the_middle(a: Seq<char>, pattern: Seq<char>, b: Seq<char>, s: Seq<char>)
    ensures
        contained(a + pattern + b, pattern),
        contained(s, pattern) ==> exists|i: int|
            0 <= i <= s.len() - pattern.len() && s == #[trigger] s.take(i) + pattern + s.skip(
                i + pattern.len(),
            ),
{
    let whole = a + pattern + b;
    assert(whole.subrange(a.len() as int, (a.len() + pattern.len()) as int) == pattern);
    assert(found_at(whole, pattern, a.len() as int));
    if contained(s, pattern) {
        let i = choose|i: int| found_at(s, pattern, i);
        assert(s =~= s.take(i) + pattern + s.skip(i + pattern.len())) by {
            assert forall|k: int| 0 <= k < pattern.len() implies s[i + k] == pattern[k] by {
                assert(s.subrange(i, i + pattern.len())[k] == pattern[k]);
            }
        }
    }
}

/// Replacing the first occurrence changes that and nothing else: where the old text is not found
/// any earlier, what stands before and after it stays.
pub proof fn law_replacing_keeps_the_rest(
    a: Seq<char>,
    old_text: Seq<char>,
    new_text: Seq<char>,
    b: Seq<char>,
    after: Seq<char>,
)
    requires
        forall|j: int| 0 <= j < a.len() ==> !found_at(a + old_text + b, old_text, j),
        first_replaced(a + old_text + b, old_text, new_text, after),
    ensures
        after == a + new_text + b,
{
    let before = a + old_text + b;
    let n = a.len() as int;
    assert(before.subrange(n, n + old_text.len()) == old_text);
    assert(found_at(before, old_text, n));
    let i = choose|i: int|
        {
            &&& #[trigger] found_at(before, old_text, i)
            &&& forall|j: int| 0 <= j < i ==> !found_at(before, old_text, j)
            &&& after == before.take(i) + new_text + before.skip(i + old_text.len())
        };
    assert(i == n);
    assert(before.take(n) == a);
    assert(before.skip(n + old_text.len()) == b);
}

/// What ends with a character many times over loses exactly these.
pub proof fn law_trailing_characters_go(s: Seq<char>, c: char)
    ensures
        without_trailing(s, c).is_prefix_of(s),
        without_trailing(s, c).len() > 0 ==> without_trailing(s, c).last() != c,
        forall|i: int| without_trailing(s, c).len() <= i < s.len() ==> s[i] == c,
    decreases s.len(),
{
    let r = without_trailing(s, c);
    if s.len() > 0 && s.last() == c {
        law_trailing_characters_go(s.drop_last(), c);
        assert(r == s.drop_last().subrange(0, r.len() as int));
        assert(r == s.subrange(0, r.len() as int));
        assert forall|i: int| r.len() <= i < s.len() implies s[i] == c by {
            if i < s.len() - 1 {
                assert(s.drop_last()[i] == c);
            }
        }
    } else {
        assert(s == s.subrange(0, s.len() as int));
    }
}

/// The contents of a list of strings are all of them, in order; what is absent has no content.
pub proof fn law_lists_are_seen_whole(list: Seq<String>, i: int, v: Vec<String>, s: String)
    ensures
        texts(list).len() == list.len(),
        0 <= i < list.len() ==> texts(list)[i] == list[i]@,
        opt_texts(Some(v)) == Some(texts(v@)),
        opt_texts(None) is None,
        opt_string(Some(s)) == Some(s@),
        opt_string(None) is None,
{
}

} // verus!
