//! Which commands run without asking: an allowlist over the words of one pipeline stage.

use crate::lines::{lemma_position_at, position};
use crate::numeral::is_digit;
use crate::text::{chars_of, clip, same, starts_with, texts};
use vstd::prelude::*;
use vstd::string::*;

verus! {

/// Some word at or after `start` has the property.
pub open spec fn any_word(
    words: Seq<Seq<char>>,
    start: int,
    property: spec_fn(Seq<char>) -> bool,
) -> bool {
    exists|i: int| start <= i < words.len() && property(#[trigger] words[i])
}

fn any_from<F: Fn(&String) -> bool>(
    tokens: &[String],
    start: usize,
    test: F,
    property: Ghost<spec_fn(Seq<char>) -> bool>,
) -> (r: bool)
    requires
        forall|t: &String| call_requires(test, (t,)),
        forall|t: &String, b: bool| call_ensures(test, (t,), b) ==> b == property@(t@),
    ensures
        r == any_word(texts(tokens@), start as int, property@),
{
    let n = tokens.len();
    let mut i: usize = start;
    while i < n
        invariant
            n == tokens@.len(),
            start <= i,
            i <= n || i == start,
            forall|t: &String| call_requires(test, (t,)),
            forall|t: &String, b: bool| call_ensures(test, (t,), b) ==> b == property@(t@),
            forall|k: int| start <= k < i && k < n ==> !property@(#[trigger] texts(tokens@)[k]),
        decreases n - i,
    {
        if test(&tokens[i]) {
            assert(property@(texts(tokens@)[i as int]));
            return true;
        }
        i = i + 1;
    }
    false
}

// ---- Flags -------------------------------------------------------------------------------------

/// A word that begins with a dash.
pub open spec fn dashed(t: Seq<char>) -> bool {
    t.len() > 0 && t[0] == '-'
}

/// A word that begins with two dashes.
pub open spec fn double_dashed(t: Seq<char>) -> bool {
    t.len() > 1 && t[0] == '-' && t[1] == '-'
}

/// A cluster of single-letter flags that holds `c`.
pub open spec fn cluster_has(t: Seq<char>, c: char) -> bool {
    dashed(t) && !double_dashed(t) && t.skip(1).contains(c)
}

fn is_dashed(t: &str) -> (r: bool)
    ensures
        r == dashed(t@),
{
    let x = chars_of(t);
    x.len() > 0 && x[0] == '-'
}

fn has_in_cluster(t: &str, c: char) -> (r: bool)
    ensures
        r == cluster_has(t@, c),
{
    let x = chars_of(t);
    if x.len() == 0 || x[0] != '-' {
        return false;
    }
    if x.len() > 1 && x[1] == '-' {
        return false;
    }
    let mut i: usize = 1;
    while i < x.len()
        invariant
            1 <= i <= x@.len(),
            x@ == t@,
            dashed(t@),
            !double_dashed(t@),
            forall|k: int| 1 <= k < i ==> x@[k] != c,
        decreases x@.len() - i,
    {
        if x[i] == c {
            assert(t@.skip(1)[i - 1] == c);
            return true;
        }
        i = i + 1;
    }
    assert forall|k: int| 0 <= k < t@.skip(1).len() implies t@.skip(1)[k] != c by {
        assert(t@.skip(1)[k] == t@[k + 1]);
    }
    false
}

/// The word sets the flag: it is the flag, a long flag with `=` behind it, or a short flag with
/// something behind it.
pub open spec fn sets_flag(t: Seq<char>, flag: Seq<char>) -> bool {
    t == flag || if double_dashed(flag) {
        flag.push('=').is_prefix_of(t)
    } else {
        flag.is_prefix_of(t) && t.len() > flag.len()
    }
}

/// A word after the command sets one of the flags.
pub open spec fn sets_any_flag(words: Seq<Seq<char>>, flags: Seq<&str>) -> bool {
    exists|i: int, k: int|
        1 <= i < words.len() && 0 <= k < flags.len() && sets_flag(
            #[trigger] words[i],
            #[trigger] flags[k]@,
        )
}

fn word_sets_flag(t: &str, flag: &str) -> (r: bool)
    ensures
        r == sets_flag(t@, flag@),
{
    if same(t, flag) {
        return true;
    }
    let f = chars_of(flag);
    if f.len() > 1 && f[0] == '-' && f[1] == '-' {
        let mut with_equals = flag.to_string();
        with_equals.push('=');
        starts_with(t, with_equals.as_str())
    } else {
        let r = starts_with(t, flag);
        assert(r ==> t@.len() > flag@.len()) by {
            if flag@.is_prefix_of(t@) && t@.len() <= flag@.len() {
                assert(t@ == flag@);
            }
        }
        r
    }
}

/// Whether a word after the command sets one of the flags.
pub fn has_output_flag(tokens: &[String], flags: &[&str]) -> (r: bool)
    ensures
        r == sets_any_flag(texts(tokens@), flags@),
{
    let ghost words = texts(tokens@);
    let n = tokens.len();
    let mut i: usize = 1;
    while i < n
        invariant
            1 <= i,
            i <= n || i == 1,
            n == tokens@.len(),
            words == texts(tokens@),
            forall|a: int, k: int|
                1 <= a < i && a < n && 0 <= k < flags@.len() ==> !sets_flag(
                    #[trigger] words[a],
                    #[trigger] flags@[k]@,
                ),
        decreases n - i,
    {
        let mut j: usize = 0;
        while j < flags.len()
            invariant
                j <= flags@.len(),
                1 <= i < n,
                n == tokens@.len(),
                words == texts(tokens@),
                forall|k: int|
                    0 <= k < j ==> !sets_flag(words[i as int], #[trigger] flags@[k]@),
            decreases flags@.len() - j,
        {
            if word_sets_flag(tokens[i].as_str(), flags[j]) {
                assert(sets_flag(words[i as int], flags@[j as int]@));
                return true;
            }
            j = j + 1;
        }
        i = i + 1;
    }
    false
}

/// A word after the command sends the output to a file.
pub open spec fn writes_output(words: Seq<Seq<char>>) -> bool {
    any_word(words, 1, |t: Seq<char>| sets_flag(t, "-o"@) || sets_flag(t, "--output"@))
}

fn has_file_output(tokens: &[String]) -> (r: bool)
    ensures
        r == writes_output(texts(tokens@)),
{
    let flags: [&str; 2] = ["-o", "--output"];
    let r = has_output_flag(tokens, &flags);
    let ghost words = texts(tokens@);
    let ghost property = |t: Seq<char>| sets_flag(t, "-o"@) || sets_flag(t, "--output"@);
    assert(flags@[0]@ == "-o"@);
    assert(flags@[1]@ == "--output"@);
    proof {
        if r {
            let (i, k) = choose|i: int, k: int|
                1 <= i < words.len() && 0 <= k < flags@.len() && sets_flag(
                    #[trigger] words[i],
                    #[trigger] flags@[k]@,
                );
            assert(property(words[i]));
        }
        if writes_output(words) {
            let i = choose|i: int| 1 <= i < words.len() && property(#[trigger] words[i]);
            assert(sets_flag(words[i], flags@[0]@) || sets_flag(words[i], flags@[1]@));
        }
    }
    r
}

// ---- Long options ------------------------------------------------------------------------------

/// The name of an option: what stands before the first `=`.
pub open spec fn option_name(t: Seq<char>) -> Seq<char> {
    t.take(position(t, '=') as int)
}

/// The word is the long option, in full or shortened.
pub open spec fn shortens(t: Seq<char>, option: Seq<char>) -> bool {
    t.len() > 2 && t.is_prefix_of(option)
}

/// The word names the long option, in full or shortened; a value may stand behind `=`.
pub open spec fn names_option(t: Seq<char>, option: Seq<char>) -> bool {
    shortens(option_name(t), option)
}

fn word_shortens(t: &str, option: &str) -> (r: bool)
    ensures
        r == shortens(t@, option@),
{
    t.unicode_len() > 2 && starts_with(option, t)
}

fn word_names_option(t: &str, option: &str) -> (r: bool)
    ensures
        r == names_option(t@, option@),
{
    let x = chars_of(t);
    let mut n: usize = 0;
    while n < x.len() && x[n] != '='
        invariant
            n <= x@.len(),
            forall|i: int| 0 <= i < n ==> x@[i] != '=',
        decreases x@.len() - n,
    {
        n = n + 1;
    }
    proof {
        lemma_position_at(x@, '=', n as nat);
    }
    let name = clip(t, n);
    assert(name@ == option_name(t@)) by {
        assert(t@.take(t@.len() as int) == t@);
    }
    word_shortens(name.as_str(), option)
}

// ---- Clusters ----------------------------------------------------------------------------------

/// A cluster of single-letter flags that holds `c`, before any letter that takes the rest of the
/// word as its argument.
pub open spec fn cluster_gives(t: Seq<char>, c: char, takes: spec_fn(char) -> bool) -> bool {
    dashed(t) && !double_dashed(t) && exists|k: int|
        1 <= k < t.len() && #[trigger] t[k] == c && forall|j: int|
            1 <= j < k ==> !takes(#[trigger] t[j])
}

/// A cluster of single-letter flags whose last letter takes the next word as its argument.
pub open spec fn cluster_wants(
    t: Seq<char>,
    wants: spec_fn(char) -> bool,
    takes: spec_fn(char) -> bool,
) -> bool {
    &&& t.len() > 1
    &&& t[0] == '-'
    &&& t[1] != '-'
    &&& wants(t.last())
    &&& forall|j: int| 1 <= j < t.len() - 1 ==> !takes(#[trigger] t[j])
}

fn gives_in_cluster<F: Fn(char) -> bool>(
    t: &str,
    c: char,
    takes: F,
    taking: Ghost<spec_fn(char) -> bool>,
) -> (r: bool)
    requires
        forall|x: char| call_requires(takes, (x,)),
        forall|x: char, b: bool| call_ensures(takes, (x,), b) ==> b == taking@(x),
    ensures
        r == cluster_gives(t@, c, taking@),
{
    let x = chars_of(t);
    if x.len() == 0 || x[0] != '-' || (x.len() > 1 && x[1] == '-') {
        return false;
    }
    let mut i: usize = 1;
    while i < x.len()
        invariant
            1 <= i <= x@.len(),
            x@ == t@,
            dashed(t@),
            !double_dashed(t@),
            forall|y: char| call_requires(takes, (y,)),
            forall|y: char, b: bool| call_ensures(takes, (y,), b) ==> b == taking@(y),
            forall|j: int| 1 <= j < i ==> !taking@(#[trigger] t@[j]),
            forall|j: int| 1 <= j < i ==> #[trigger] t@[j] != c,
        decreases x@.len() - i,
    {
        if x[i] == c {
            assert(t@[i as int] == c);
            return true;
        }
        if takes(x[i]) {
            assert(taking@(t@[i as int]));
            return false;
        }
        i = i + 1;
    }
    false
}

fn wants_next<F: Fn(char) -> bool, G: Fn(char) -> bool>(
    t: &str,
    wants: F,
    takes: G,
    wanting: Ghost<spec_fn(char) -> bool>,
    taking: Ghost<spec_fn(char) -> bool>,
) -> (r: bool)
    requires
        forall|x: char| call_requires(wants, (x,)),
        forall|x: char, b: bool| call_ensures(wants, (x,), b) ==> b == wanting@(x),
        forall|x: char| call_requires(takes, (x,)),
        forall|x: char, b: bool| call_ensures(takes, (x,), b) ==> b == taking@(x),
    ensures
        r == cluster_wants(t@, wanting@, taking@),
{
    let x = chars_of(t);
    let n = x.len();
    if n < 2 || x[0] != '-' || x[1] == '-' || !wants(x[n - 1]) {
        return false;
    }
    let mut i: usize = 1;
    while i < n - 1
        invariant
            1 <= i <= n - 1,
            n == x@.len(),
            x@ == t@,
            forall|y: char| call_requires(takes, (y,)),
            forall|y: char, b: bool| call_ensures(takes, (y,), b) ==> b == taking@(y),
            forall|j: int| 1 <= j < i ==> !taking@(#[trigger] t@[j]),
        decreases n - i,
    {
        if takes(x[i]) {
            assert(taking@(t@[i as int]));
            return false;
        }
        i = i + 1;
    }
    true
}

// ---- Where flags stand -------------------------------------------------------------------------

/// What the word at a place is read as.
#[derive(Debug, Clone, Copy, PartialEq, Eq, Structural)]
pub enum Role {
    /// A flag, if it looks like one.
    Flag,
    /// The argument of the flag before it.
    Argument,
    /// No flag, whatever it looks like.
    Operand,
}

/// A word that is a flag: it begins with a dash, and is neither a lone dash nor the mark that ends
/// the flags.
pub open spec fn is_flag(t: Seq<char>) -> bool {
    t.len() > 1 && t[0] == '-' && t != "--"@
}

/// What the word at `i` is read as. No flag follows `--`, nor, where the flags lead, a word that is
/// no flag. `wants` are the flags that take the next word as their argument.
pub open spec fn role(
    words: Seq<Seq<char>>,
    i: int,
    wants: spec_fn(Seq<char>) -> bool,
    leading: bool,
) -> Role
    decreases i,
{
    if i <= 1 {
        Role::Flag
    } else {
        match role(words, i - 1, wants, leading) {
            Role::Operand => Role::Operand,
            Role::Argument => Role::Flag,
            Role::Flag => if words[i - 1] == "--"@ || (leading && !is_flag(words[i - 1])) {
                Role::Operand
            } else if wants(words[i - 1]) {
                Role::Argument
            } else {
                Role::Flag
            },
        }
    }
}

/// A word that is read as a flag has the property.
pub open spec fn any_flag(
    words: Seq<Seq<char>>,
    wants: spec_fn(Seq<char>) -> bool,
    leading: bool,
    property: spec_fn(Seq<char>) -> bool,
) -> bool {
    exists|i: int|
        1 <= i < words.len() && #[trigger] role(words, i, wants, leading) == Role::Flag
            && property(words[i])
}

fn any_flag_from<F: Fn(&String) -> bool, G: Fn(&String) -> bool>(
    tokens: &[String],
    wants: F,
    leading: bool,
    test: G,
    wanting: Ghost<spec_fn(Seq<char>) -> bool>,
    property: Ghost<spec_fn(Seq<char>) -> bool>,
) -> (r: bool)
    requires
        forall|t: &String| call_requires(wants, (t,)),
        forall|t: &String, b: bool| call_ensures(wants, (t,), b) ==> b == wanting@(t@),
        forall|t: &String| call_requires(test, (t,)),
        forall|t: &String, b: bool| call_ensures(test, (t,), b) ==> b == property@(t@),
    ensures
        r == any_flag(texts(tokens@), wanting@, leading, property@),
{
    let ghost words = texts(tokens@);
    let n = tokens.len();
    let mut now = Role::Flag;
    let mut i: usize = 1;
    while i < n
        invariant
            n == tokens@.len(),
            words == texts(tokens@),
            1 <= i,
            i <= n || i == 1,
            now == role(words, i as int, wanting@, leading),
            forall|t: &String| call_requires(wants, (t,)),
            forall|t: &String, b: bool| call_ensures(wants, (t,), b) ==> b == wanting@(t@),
            forall|t: &String| call_requires(test, (t,)),
            forall|t: &String, b: bool| call_ensures(test, (t,), b) ==> b == property@(t@),
            forall|j: int|
                1 <= j < i && j < n && #[trigger] role(words, j, wanting@, leading) == Role::Flag
                    ==> !property@(words[j]),
        decreases n - i,
    {
        let token = &tokens[i];
        assert(words[i as int] == token@);
        if now == Role::Flag && test(token) {
            return true;
        }
        now = match now {
            Role::Operand => Role::Operand,
            Role::Argument => Role::Flag,
            Role::Flag => {
                let word = chars_of(token.as_str());
                let ended = same(token.as_str(), "--");
                if ended || (leading && (word.len() < 2 || word[0] != '-')) {
                    Role::Operand
                } else if wants(token) {
                    Role::Argument
                } else {
                    Role::Flag
                }
            },
        };
        i = i + 1;
    }
    false
}

fn wants_nothing(t: &String) -> (r: bool)
    ensures
        r == false,
{
    false
}

// ---- Commands ----------------------------------------------------------------------------------

/// A flag that makes `rm` delete recursively or by force, wherever it stands.
pub open spec fn rm_flag(t: Seq<char>) -> bool {
    t == "--force"@ || t == "--recursive"@ || cluster_has(t, 'r') || cluster_has(t, 'R')
        || cluster_has(t, 'f')
}

/// The short form of a long flag of `rm` that deletes recursively or by force.
pub open spec fn rm_short_form(t: Seq<char>) -> bool {
    shortens(t, "--recursive"@) || shortens(t, "--force"@)
}

/// The words of `rm` with a flag that makes the deletion recursive or forced. A short form counts
/// only where a flag can stand: behind `--` it is the name of a file.
pub open spec fn rm_forces(words: Seq<Seq<char>>) -> bool {
    any_word(words, 1, |t: Seq<char>| rm_flag(t)) || any_flag(
        words,
        |t: Seq<char>| false,
        false,
        |t: Seq<char>| rm_short_form(t),
    )
}

fn is_rm_flag(t: &String) -> (r: bool)
    ensures
        r == rm_flag(t@),
{
    let s = t.as_str();
    same(s, "--force") || same(s, "--recursive") || has_in_cluster(s, 'r') || has_in_cluster(s, 'R')
        || has_in_cluster(s, 'f')
}

fn is_rm_short_form(t: &String) -> (r: bool)
    ensures
        r == rm_short_form(t@),
{
    word_shortens(t.as_str(), "--recursive") || word_shortens(t.as_str(), "--force")
}

/// `rm` with a flag that makes the deletion recursive or forced.
pub fn rm_is_dangerous(tokens: &[String]) -> (r: bool)
    ensures
        r == rm_forces(texts(tokens@)),
{
    any_from(tokens, 1, is_rm_flag, Ghost(|t: Seq<char>| rm_flag(t))) || any_flag_from(
        tokens,
        wants_nothing,
        false,
        is_rm_short_form,
        Ghost(|t: Seq<char>| false),
        Ghost(|t: Seq<char>| rm_short_form(t)),
    )
}

/// A flag of `find` that deletes, executes or writes.
pub open spec fn find_flag(t: Seq<char>) -> bool {
    t == "-delete"@ || t == "-exec"@ || t == "-execdir"@ || t == "-ok"@ || t == "-okdir"@ || t
        == "-fprint"@ || t == "-fprint0"@ || t == "-fprintf"@ || t == "-fls"@
}

fn is_find_flag(t: &String) -> (r: bool)
    ensures
        r == find_flag(t@),
{
    let s = t.as_str();
    same(s, "-delete") || same(s, "-exec") || same(s, "-execdir") || same(s, "-ok") || same(
        s,
        "-okdir",
    ) || same(s, "-fprint") || same(s, "-fprint0") || same(s, "-fprintf") || same(s, "-fls")
}

/// `find` with a flag that deletes, executes or writes.
pub fn find_is_dangerous(tokens: &[String]) -> (r: bool)
    ensures
        r == any_word(texts(tokens@), 1, |t: Seq<char>| find_flag(t)),
{
    any_from(tokens, 1, is_find_flag, Ghost(|t: Seq<char>| find_flag(t)))
}

/// A letter after which no further flag of `sed` stands in a cluster: it is no flag without an
/// argument.
pub open spec fn sed_takes(c: char) -> bool {
    !(c == 'n' || c == 'r' || c == 'E' || c == 's' || c == 'u' || c == 'z')
}

fn does_sed_take(c: char) -> (r: bool)
    ensures
        r == sed_takes(c),
{
    !(c == 'n' || c == 'r' || c == 'E' || c == 's' || c == 'u' || c == 'z')
}

/// The letter of a flag of `sed` with an argument.
pub open spec fn sed_wants_for(c: char) -> bool {
    c == 'e' || c == 'f' || c == 'l'
}

fn does_sed_want_for(c: char) -> (r: bool)
    ensures
        r == sed_wants_for(c),
{
    c == 'e' || c == 'f' || c == 'l'
}

/// A flag of `sed` that takes the next word as its argument.
pub open spec fn sed_wants(t: Seq<char>) -> bool {
    cluster_wants(t, |c: char| sed_wants_for(c), |c: char| sed_takes(c)) || shortens(
        t,
        "--expression"@,
    ) || shortens(t, "--file"@) || shortens(t, "--line-length"@)
}

fn does_sed_want(t: &String) -> (r: bool)
    ensures
        r == sed_wants(t@),
{
    let s = t.as_str();
    wants_next(
        s,
        does_sed_want_for,
        does_sed_take,
        Ghost(|c: char| sed_wants_for(c)),
        Ghost(|c: char| sed_takes(c)),
    ) || word_shortens(s, "--expression") || word_shortens(s, "--file") || word_shortens(
        s,
        "--line-length",
    )
}

/// A flag that makes `sed` edit files in place, wherever it stands.
pub open spec fn sed_flag(t: Seq<char>) -> bool {
    "-i"@.is_prefix_of(t) || t == "--in-place"@
}

/// A flag that makes `sed` edit files in place: in a cluster, shortened, or with a value.
pub open spec fn sed_other_form(t: Seq<char>) -> bool {
    cluster_gives(t, 'i', |c: char| sed_takes(c)) || names_option(t, "--in-place"@)
}

/// The words of `sed` that edit files in place.
pub open spec fn sed_edits(words: Seq<Seq<char>>) -> bool {
    any_word(words, 1, |t: Seq<char>| sed_flag(t)) || any_flag(
        words,
        |t: Seq<char>| sed_wants(t),
        false,
        |t: Seq<char>| sed_other_form(t),
    )
}

fn is_sed_flag(t: &String) -> (r: bool)
    ensures
        r == sed_flag(t@),
{
    starts_with(t.as_str(), "-i") || same(t.as_str(), "--in-place")
}

fn is_sed_other_form(t: &String) -> (r: bool)
    ensures
        r == sed_other_form(t@),
{
    gives_in_cluster(t.as_str(), 'i', does_sed_take, Ghost(|c: char| sed_takes(c)))
        || word_names_option(t.as_str(), "--in-place")
}

fn does_sed_edit(tokens: &[String]) -> (r: bool)
    ensures
        r == sed_edits(texts(tokens@)),
{
    any_from(tokens, 1, is_sed_flag, Ghost(|t: Seq<char>| sed_flag(t))) || any_flag_from(
        tokens,
        does_sed_want,
        false,
        is_sed_other_form,
        Ghost(|t: Seq<char>| sed_wants(t)),
        Ghost(|t: Seq<char>| sed_other_form(t)),
    )
}

/// The letter of a flag of `sort` with an argument.
pub open spec fn sort_takes(c: char) -> bool {
    c == 'k' || c == 'o' || c == 'S' || c == 't' || c == 'T'
}

fn does_sort_take(c: char) -> (r: bool)
    ensures
        r == sort_takes(c),
{
    c == 'k' || c == 'o' || c == 'S' || c == 't' || c == 'T'
}

/// A flag of `sort` that takes the next word as its argument.
pub open spec fn sort_wants(t: Seq<char>) -> bool {
    ||| cluster_wants(t, |c: char| sort_takes(c), |c: char| sort_takes(c))
    ||| shortens(t, "--batch-size"@)
    ||| shortens(t, "--buffer-size"@)
    ||| shortens(t, "--compress-program"@)
    ||| shortens(t, "--field-separator"@)
    ||| shortens(t, "--files0-from"@)
    ||| shortens(t, "--key"@)
    ||| shortens(t, "--output"@)
    ||| shortens(t, "--parallel"@)
    ||| shortens(t, "--random-source"@)
    ||| shortens(t, "--sort"@)
    ||| shortens(t, "--temporary-directory"@)
}

fn does_sort_want(t: &String) -> (r: bool)
    ensures
        r == sort_wants(t@),
{
    let s = t.as_str();
    wants_next(
        s,
        does_sort_take,
        does_sort_take,
        Ghost(|c: char| sort_takes(c)),
        Ghost(|c: char| sort_takes(c)),
    ) || word_shortens(s, "--batch-size") || word_shortens(s, "--buffer-size") || word_shortens(
        s,
        "--compress-program",
    ) || word_shortens(s, "--field-separator") || word_shortens(s, "--files0-from")
        || word_shortens(s, "--key") || word_shortens(s, "--output") || word_shortens(
        s,
        "--parallel",
    ) || word_shortens(s, "--random-source") || word_shortens(s, "--sort") || word_shortens(
        s,
        "--temporary-directory",
    )
}

/// A flag that makes `sort` write to a file: in a cluster, shortened, or with a value.
pub open spec fn sort_other_form(t: Seq<char>) -> bool {
    cluster_gives(t, 'o', |c: char| sort_takes(c)) || names_option(t, "--output"@)
}

/// The words of `sort` that write to a file.
pub open spec fn sort_writes(words: Seq<Seq<char>>) -> bool {
    writes_output(words) || any_flag(
        words,
        |t: Seq<char>| sort_wants(t),
        false,
        |t: Seq<char>| sort_other_form(t),
    )
}

fn is_sort_other_form(t: &String) -> (r: bool)
    ensures
        r == sort_other_form(t@),
{
    gives_in_cluster(t.as_str(), 'o', does_sort_take, Ghost(|c: char| sort_takes(c)))
        || word_names_option(t.as_str(), "--output")
}

fn does_sort_write(tokens: &[String]) -> (r: bool)
    ensures
        r == sort_writes(texts(tokens@)),
{
    has_file_output(tokens) || any_flag_from(
        tokens,
        does_sort_want,
        false,
        is_sort_other_form,
        Ghost(|t: Seq<char>| sort_wants(t)),
        Ghost(|t: Seq<char>| sort_other_form(t)),
    )
}

/// A flag of `tree` that takes the next word as its argument. A letter of a cluster takes nothing
/// of the cluster itself.
pub open spec fn tree_wants(t: Seq<char>) -> bool {
    cluster_has(t, 'H') || cluster_has(t, 'I') || cluster_has(t, 'L') || cluster_has(t, 'P')
        || cluster_has(t, 'T') || cluster_has(t, 'o')
}

fn does_tree_want(t: &String) -> (r: bool)
    ensures
        r == tree_wants(t@),
{
    let s = t.as_str();
    has_in_cluster(s, 'H') || has_in_cluster(s, 'I') || has_in_cluster(s, 'L') || has_in_cluster(
        s,
        'P',
    ) || has_in_cluster(s, 'T') || has_in_cluster(s, 'o')
}

/// The words of `tree` that write to a file.
pub open spec fn tree_writes(words: Seq<Seq<char>>) -> bool {
    writes_output(words) || any_flag(
        words,
        |t: Seq<char>| tree_wants(t),
        false,
        |t: Seq<char>| cluster_has(t, 'o'),
    )
}

fn has_output_letter(t: &String) -> (r: bool)
    ensures
        r == cluster_has(t@, 'o'),
{
    has_in_cluster(t.as_str(), 'o')
}

fn does_tree_write(tokens: &[String]) -> (r: bool)
    ensures
        r == tree_writes(texts(tokens@)),
{
    has_file_output(tokens) || any_flag_from(
        tokens,
        does_tree_want,
        false,
        has_output_letter,
        Ghost(|t: Seq<char>| tree_wants(t)),
        Ghost(|t: Seq<char>| cluster_has(t, 'o')),
    )
}

/// A flag that makes a shell or an interpreter run code from the command line, wherever it stands.
pub open spec fn inline_code_flag(t: Seq<char>) -> bool {
    cluster_has(t, 'c')
}

fn is_inline_code_flag(t: &String) -> (r: bool)
    ensures
        r == inline_code_flag(t@),
{
    has_in_cluster(t.as_str(), 'c')
}

fn is_command_option(t: &String) -> (r: bool)
    ensures
        r == names_option(t@, "--command"@),
{
    word_names_option(t.as_str(), "--command")
}

/// The words of a shell or an interpreter that runs code from the command line. Only `fish` has a
/// long flag for that.
pub open spec fn runs_inline(words: Seq<Seq<char>>) -> bool {
    any_word(words, 1, |t: Seq<char>| inline_code_flag(t)) || (words[0] == "fish"@ && any_flag(
        words,
        |t: Seq<char>| false,
        true,
        |t: Seq<char>| names_option(t, "--command"@),
    ))
}

fn does_run_inline(tokens: &[String]) -> (r: bool)
    requires
        tokens@.len() > 0,
    ensures
        r == runs_inline(texts(tokens@)),
{
    assert(texts(tokens@)[0] == tokens@[0]@);
    any_from(tokens, 1, is_inline_code_flag, Ghost(|t: Seq<char>| inline_code_flag(t))) || (same(
        tokens[0].as_str(),
        "fish",
    ) && any_flag_from(
        tokens,
        wants_nothing,
        true,
        is_command_option,
        Ghost(|t: Seq<char>| false),
        Ghost(|t: Seq<char>| names_option(t, "--command"@)),
    ))
}

// ---- Syntax checks -----------------------------------------------------------------------------

/// A command that only checks the syntax of a script: the flag for that is among the flags before
/// the script, and none of these runs code from the command line.
pub open spec fn checks_syntax(
    words: Seq<Seq<char>>,
    check: Seq<char>,
    wants: spec_fn(Seq<char>) -> bool,
    script: spec_fn(Seq<char>) -> bool,
) -> bool {
    any_flag(words, wants, true, |t: Seq<char>| t == check) && !any_flag(words, wants, true, script)
}

fn is_check_flag(t: &String) -> (r: bool)
    ensures
        r == (t@ == "-c"@),
{
    same(t.as_str(), "-c")
}

fn is_node_check_flag(t: &String) -> (r: bool)
    ensures
        r == (t@ == "--check"@),
{
    same(t.as_str(), "--check")
}

/// A letter or a sign after which no further flag of `perl` stands in a cluster.
pub open spec fn perl_takes(c: char) -> bool {
    c == 'C' || c == 'D' || c == 'F' || c == 'I' || c == 'M' || c == 'V' || c == 'i' || c == 'm' || c
        == 'x' || c == ':' || c == '='
}

fn does_perl_take(c: char) -> (r: bool)
    ensures
        r == perl_takes(c),
{
    c == 'C' || c == 'D' || c == 'F' || c == 'I' || c == 'M' || c == 'V' || c == 'i' || c == 'm' || c
        == 'x' || c == ':' || c == '='
}

fn is_include_letter(c: char) -> (r: bool)
    ensures
        r == (c == 'I'),
{
    c == 'I'
}

/// A flag of `perl` that takes the next word as its argument and runs no code.
pub open spec fn perl_wants(t: Seq<char>) -> bool {
    cluster_wants(t, |c: char| c == 'I', |c: char| perl_takes(c))
}

fn does_perl_want(t: &String) -> (r: bool)
    ensures
        r == perl_wants(t@),
{
    wants_next(
        t.as_str(),
        is_include_letter,
        does_perl_take,
        Ghost(|c: char| c == 'I'),
        Ghost(|c: char| perl_takes(c)),
    )
}

/// A flag that makes `perl` run code from the command line.
pub open spec fn perl_script_flag(t: Seq<char>) -> bool {
    cluster_gives(t, 'e', |c: char| perl_takes(c)) || cluster_gives(t, 'E', |c: char| perl_takes(c))
}

fn is_perl_script_flag(t: &String) -> (r: bool)
    ensures
        r == perl_script_flag(t@),
{
    gives_in_cluster(t.as_str(), 'e', does_perl_take, Ghost(|c: char| perl_takes(c)))
        || gives_in_cluster(t.as_str(), 'E', does_perl_take, Ghost(|c: char| perl_takes(c)))
}

/// The words of `perl` that only check the syntax of a script.
pub open spec fn perl_checks(words: Seq<Seq<char>>) -> bool {
    checks_syntax(
        words,
        "-c"@,
        |t: Seq<char>| perl_wants(t),
        |t: Seq<char>| perl_script_flag(t),
    )
}

fn does_perl_check(tokens: &[String]) -> (r: bool)
    ensures
        r == perl_checks(texts(tokens@)),
{
    any_flag_from(
        tokens,
        does_perl_want,
        true,
        is_check_flag,
        Ghost(|t: Seq<char>| perl_wants(t)),
        Ghost(|t: Seq<char>| t == "-c"@),
    ) && !any_flag_from(
        tokens,
        does_perl_want,
        true,
        is_perl_script_flag,
        Ghost(|t: Seq<char>| perl_wants(t)),
        Ghost(|t: Seq<char>| perl_script_flag(t)),
    )
}

/// A letter or a sign after which no further flag of `ruby` stands in a cluster.
pub open spec fn ruby_takes(c: char) -> bool {
    c == 'C' || c == 'E' || c == 'F' || c == 'I' || c == 'K' || c == 'X' || c == 'i' || c == 'r' || c
        == 'x' || c == ':' || c == '='
}

fn does_ruby_take(c: char) -> (r: bool)
    ensures
        r == ruby_takes(c),
{
    c == 'C' || c == 'E' || c == 'F' || c == 'I' || c == 'K' || c == 'X' || c == 'i' || c == 'r' || c
        == 'x' || c == ':' || c == '='
}

/// The letter of a flag of `ruby` that takes the next word where nothing stands behind it.
pub open spec fn ruby_wants_for(c: char) -> bool {
    c == 'C' || c == 'E' || c == 'I' || c == 'X' || c == 'r'
}

fn does_ruby_want_for(c: char) -> (r: bool)
    ensures
        r == ruby_wants_for(c),
{
    c == 'C' || c == 'E' || c == 'I' || c == 'X' || c == 'r'
}

/// A flag of `ruby` that takes the next word as its argument and runs no code.
pub open spec fn ruby_wants(t: Seq<char>) -> bool {
    ||| cluster_wants(t, |c: char| ruby_wants_for(c), |c: char| ruby_takes(c))
    ||| t == "--disable"@
    ||| t == "--enable"@
    ||| t == "--encoding"@
    ||| t == "--external-encoding"@
    ||| t == "--internal-encoding"@
}

fn does_ruby_want(t: &String) -> (r: bool)
    ensures
        r == ruby_wants(t@),
{
    let s = t.as_str();
    wants_next(
        s,
        does_ruby_want_for,
        does_ruby_take,
        Ghost(|c: char| ruby_wants_for(c)),
        Ghost(|c: char| ruby_takes(c)),
    ) || same(s, "--disable") || same(s, "--enable") || same(s, "--encoding") || same(
        s,
        "--external-encoding",
    ) || same(s, "--internal-encoding")
}

/// A flag that makes `ruby` run code from the command line.
pub open spec fn ruby_script_flag(t: Seq<char>) -> bool {
    cluster_gives(t, 'e', |c: char| ruby_takes(c))
}

fn is_ruby_script_flag(t: &String) -> (r: bool)
    ensures
        r == ruby_script_flag(t@),
{
    gives_in_cluster(t.as_str(), 'e', does_ruby_take, Ghost(|c: char| ruby_takes(c)))
}

/// The words of `ruby` that only check the syntax of a script.
pub open spec fn ruby_checks(words: Seq<Seq<char>>) -> bool {
    checks_syntax(
        words,
        "-c"@,
        |t: Seq<char>| ruby_wants(t),
        |t: Seq<char>| ruby_script_flag(t),
    )
}

fn does_ruby_check(tokens: &[String]) -> (r: bool)
    ensures
        r == ruby_checks(texts(tokens@)),
{
    any_flag_from(
        tokens,
        does_ruby_want,
        true,
        is_check_flag,
        Ghost(|t: Seq<char>| ruby_wants(t)),
        Ghost(|t: Seq<char>| t == "-c"@),
    ) && !any_flag_from(
        tokens,
        does_ruby_want,
        true,
        is_ruby_script_flag,
        Ghost(|t: Seq<char>| ruby_wants(t)),
        Ghost(|t: Seq<char>| ruby_script_flag(t)),
    )
}

/// A flag of `node` that takes the next word as its argument and runs no code from the command
/// line.
pub open spec fn node_wants(t: Seq<char>) -> bool {
    ||| t == "-C"@
    ||| t == "-r"@
    ||| t == "--conditions"@
    ||| t == "--env-file"@
    ||| t == "--experimental-loader"@
    ||| t == "--import"@
    ||| t == "--input-type"@
    ||| t == "--loader"@
    ||| t == "--require"@
    ||| t == "--title"@
}

fn does_node_want(t: &String) -> (r: bool)
    ensures
        r == node_wants(t@),
{
    let s = t.as_str();
    same(s, "-C") || same(s, "-r") || same(s, "--conditions") || same(s, "--env-file") || same(
        s,
        "--experimental-loader",
    ) || same(s, "--import") || same(s, "--input-type") || same(s, "--loader") || same(
        s,
        "--require",
    ) || same(s, "--title")
}

/// A flag that makes `node` run code from the command line.
pub open spec fn node_script_flag(t: Seq<char>) -> bool {
    t == "-e"@ || t == "-p"@ || t == "-pe"@ || sets_flag(t, "--eval"@) || sets_flag(t, "--print"@)
}

fn is_node_script_flag(t: &String) -> (r: bool)
    ensures
        r == node_script_flag(t@),
{
    let s = t.as_str();
    same(s, "-e") || same(s, "-p") || same(s, "-pe") || word_sets_flag(s, "--eval")
        || word_sets_flag(s, "--print")
}

/// The words of `node` that only check the syntax of a script.
pub open spec fn node_checks(words: Seq<Seq<char>>) -> bool {
    checks_syntax(
        words,
        "--check"@,
        |t: Seq<char>| node_wants(t),
        |t: Seq<char>| node_script_flag(t),
    )
}

fn does_node_check(tokens: &[String]) -> (r: bool)
    ensures
        r == node_checks(texts(tokens@)),
{
    any_flag_from(
        tokens,
        does_node_want,
        true,
        is_node_check_flag,
        Ghost(|t: Seq<char>| node_wants(t)),
        Ghost(|t: Seq<char>| t == "--check"@),
    ) && !any_flag_from(
        tokens,
        does_node_want,
        true,
        is_node_script_flag,
        Ghost(|t: Seq<char>| node_wants(t)),
        Ghost(|t: Seq<char>| node_script_flag(t)),
    )
}

// ---- Git ---------------------------------------------------------------------------------------

/// A word that is no flag.
pub open spec fn positional(t: Seq<char>) -> bool {
    !dashed(t)
}

fn is_positional(t: &String) -> (r: bool)
    ensures
        r == positional(t@),
{
    !is_dashed(t.as_str())
}

/// A flag that makes `git branch` or `git tag` list.
pub open spec fn list_flag(t: Seq<char>) -> bool {
    t == "-l"@ || t == "--list"@
}

fn is_list_flag(t: &String) -> (r: bool)
    ensures
        r == list_flag(t@),
{
    same(t.as_str(), "-l") || same(t.as_str(), "--list")
}

/// A cluster of single-letter flags with which `git branch` and `git tag` only list.
pub open spec fn listing_cluster(t: Seq<char>) -> bool {
    t.len() > 1 && t[0] == '-' && forall|i: int|
        1 <= i < t.len() ==> listing_letter(#[trigger] t[i])
}

/// The letter of a flag with which `git branch` and `git tag` only list.
pub open spec fn listing_letter(c: char) -> bool {
    c == 'a' || c == 'h' || c == 'i' || c == 'l' || c == 'q' || c == 'r' || c == 'v'
}

/// The flag `-n` of `git tag`, which tells how many lines are shown.
pub open spec fn lines_flag(t: Seq<char>) -> bool {
    t.len() > 1 && t[0] == '-' && t[1] == 'n' && forall|i: int|
        2 <= i < t.len() ==> is_digit(#[trigger] t[i])
}

/// A flag with which `git branch` and `git tag` only list.
pub open spec fn listing_flag(t: Seq<char>) -> bool {
    ||| listing_cluster(t)
    ||| lines_flag(t)
    ||| names_option(t, "--abbrev"@)
    ||| names_option(t, "--all"@)
    ||| names_option(t, "--color"@)
    ||| names_option(t, "--column"@)
    ||| names_option(t, "--contains"@)
    ||| names_option(t, "--format"@)
    ||| names_option(t, "--help"@)
    ||| names_option(t, "--ignore-case"@)
    ||| names_option(t, "--list"@)
    ||| names_option(t, "--merged"@)
    ||| names_option(t, "--no-abbrev"@)
    ||| names_option(t, "--no-color"@)
    ||| names_option(t, "--no-column"@)
    ||| names_option(t, "--no-contains"@)
    ||| names_option(t, "--no-merged"@)
    ||| names_option(t, "--omit-empty"@)
    ||| names_option(t, "--points-at"@)
    ||| names_option(t, "--quiet"@)
    ||| names_option(t, "--remotes"@)
    ||| names_option(t, "--show-current"@)
    ||| names_option(t, "--sort"@)
    ||| names_option(t, "--verbose"@)
}

fn is_listing_cluster(t: &str) -> (r: bool)
    ensures
        r == listing_cluster(t@),
{
    let x = chars_of(t);
    if x.len() < 2 || x[0] != '-' {
        return false;
    }
    let mut i: usize = 1;
    while i < x.len()
        invariant
            1 <= i <= x@.len(),
            x@ == t@,
            forall|j: int| 1 <= j < i ==> listing_letter(#[trigger] t@[j]),
        decreases x@.len() - i,
    {
        let c = x[i];
        if !(c == 'a' || c == 'h' || c == 'i' || c == 'l' || c == 'q' || c == 'r' || c == 'v') {
            assert(!listing_letter(t@[i as int]));
            return false;
        }
        i = i + 1;
    }
    true
}

fn is_lines_flag(t: &str) -> (r: bool)
    ensures
        r == lines_flag(t@),
{
    let x = chars_of(t);
    if x.len() < 2 || x[0] != '-' || x[1] != 'n' {
        return false;
    }
    let mut i: usize = 2;
    while i < x.len()
        invariant
            2 <= i <= x@.len(),
            x@ == t@,
            forall|j: int| 2 <= j < i ==> is_digit(#[trigger] t@[j]),
        decreases x@.len() - i,
    {
        let c = x[i];
        if c < '0' || c > '9' {
            assert(!is_digit(t@[i as int]));
            return false;
        }
        i = i + 1;
    }
    true
}

fn is_listing_flag(t: &str) -> (r: bool)
    ensures
        r == listing_flag(t@),
{
    is_listing_cluster(t) || is_lines_flag(t)
        || word_names_option(t, "--abbrev")
        || word_names_option(t, "--all")
        || word_names_option(t, "--color")
        || word_names_option(t, "--column")
        || word_names_option(t, "--contains")
        || word_names_option(t, "--format")
        || word_names_option(t, "--help")
        || word_names_option(t, "--ignore-case")
        || word_names_option(t, "--list")
        || word_names_option(t, "--merged")
        || word_names_option(t, "--no-abbrev")
        || word_names_option(t, "--no-color")
        || word_names_option(t, "--no-column")
        || word_names_option(t, "--no-contains")
        || word_names_option(t, "--no-merged")
        || word_names_option(t, "--omit-empty")
        || word_names_option(t, "--points-at")
        || word_names_option(t, "--quiet")
        || word_names_option(t, "--remotes")
        || word_names_option(t, "--show-current")
        || word_names_option(t, "--sort")
        || word_names_option(t, "--verbose")
}

/// A flag with which `git branch` or `git tag` may do more than list.
pub open spec fn changing_flag(t: Seq<char>) -> bool {
    dashed(t) && t != "--"@ && !listing_flag(t)
}

fn is_changing_flag(t: &String) -> (r: bool)
    ensures
        r == changing_flag(t@),
{
    is_dashed(t.as_str()) && !same(t.as_str(), "--") && !is_listing_flag(t.as_str())
}

/// A `git` subcommand that inspects whatever its arguments are.
pub open spec fn inspecting(sub: Seq<char>) -> bool {
    sub == "status"@ || sub == "diff"@ || sub == "show"@ || sub == "log"@ || sub == "grep"@ || sub
        == "ls-files"@ || sub == "rev-parse"@
}

fn is_inspecting(sub: &str) -> (r: bool)
    ensures
        r == inspecting(sub@),
{
    same(sub, "status") || same(sub, "diff") || same(sub, "show") || same(sub, "log") || same(
        sub,
        "grep",
    ) || same(sub, "ls-files") || same(sub, "rev-parse")
}

/// The words after `git branch` or `git tag` only list: every flag is one that lists, and a name is
/// a pattern to list by.
pub open spec fn git_lists(words: Seq<Seq<char>>) -> bool {
    !any_word(words, 2, |t: Seq<char>| changing_flag(t)) && (any_word(
        words,
        2,
        |t: Seq<char>| list_flag(t),
    ) || !any_word(words, 2, |t: Seq<char>| positional(t)))
}

fn only_lists(tokens: &[String]) -> (r: bool)
    ensures
        r == git_lists(texts(tokens@)),
{
    if any_from(tokens, 2, is_changing_flag, Ghost(|t: Seq<char>| changing_flag(t))) {
        return false;
    }
    any_from(tokens, 2, is_list_flag, Ghost(|t: Seq<char>| list_flag(t))) || !any_from(
        tokens,
        2,
        is_positional,
        Ghost(|t: Seq<char>| positional(t)),
    )
}

/// The words of a `git` command that leaves the repository as it is: an inspecting subcommand, or
/// one of `branch`, `tag`, `remote` and `stash` that only lists. Nothing is written to a file.
pub open spec fn git_reads(words: Seq<Seq<char>>) -> bool {
    if writes_output(words) || words.len() < 2 {
        false
    } else if inspecting(words[1]) {
        true
    } else if words[1] == "branch"@ || words[1] == "tag"@ {
        git_lists(words)
    } else if words[1] == "remote"@ {
        !any_word(words, 2, |t: Seq<char>| positional(t))
    } else {
        words[1] == "stash"@ && words.len() > 2 && words[2] == "list"@
    }
}

/// Whether a `git` command leaves the repository as it is.
pub fn git_is_read_only(tokens: &[String]) -> (r: bool)
    ensures
        r == git_reads(texts(tokens@)),
{
    let ghost words = texts(tokens@);
    if has_file_output(tokens) {
        return false;
    }
    if tokens.len() < 2 {
        return false;
    }
    let sub = tokens[1].as_str();
    assert(sub@ == words[1]);
    if is_inspecting(sub) {
        return true;
    }
    if same(sub, "branch") || same(sub, "tag") {
        return only_lists(tokens);
    }
    if same(sub, "remote") {
        return !any_from(tokens, 2, is_positional, Ghost(|t: Seq<char>| positional(t)));
    }
    if same(sub, "stash") {
        return tokens.len() > 2 && same(tokens[2].as_str(), "list");
    }
    false
}

/// Commands that work on disks, raise privileges or run what they are fed.
pub open spec fn always_dangerous(cmd: Seq<char>) -> bool {
    cmd == "dd"@ || "mkfs"@.is_prefix_of(cmd) || cmd == "fdisk"@ || cmd == "parted"@ || cmd
        == "diskutil"@ || cmd == "sudo"@ || cmd == "xargs"@
}

fn is_always_dangerous(cmd: &str) -> (r: bool)
    ensures
        r == always_dangerous(cmd@),
{
    same(cmd, "dd") || starts_with(cmd, "mkfs") || same(cmd, "fdisk") || same(cmd, "parted") || same(
        cmd,
        "diskutil",
    ) || same(cmd, "sudo") || same(cmd, "xargs")
}

/// Commands that run whatever their arguments are: they inform, filter, build or test.
pub open spec fn always_safe(cmd: Seq<char>) -> bool {
    cmd == "pwd"@ || cmd == "ls"@ || cmd == "cat"@ || cmd == "head"@ || cmd == "tail"@ || cmd
        == "wc"@ || cmd == "rg"@ || cmd == "grep"@ || cmd == "which"@ || cmd == "whereis"@ || cmd
        == "cut"@ || cmd == "uniq"@ || cmd == "nl"@ || cmd == "stat"@ || cmd == "file"@ || cmd
        == "realpath"@ || cmd == "readlink"@ || cmd == "basename"@ || cmd == "dirname"@ || cmd
        == "echo"@ || cmd == "tr"@ || cmd == "awk"@ || cmd == "cargo"@ || cmd == "make"@
}

fn is_always_safe(cmd: &str) -> (r: bool)
    ensures
        r == always_safe(cmd@),
{
    same(cmd, "pwd") || same(cmd, "ls") || same(cmd, "cat") || same(cmd, "head") || same(cmd, "tail")
        || same(cmd, "wc") || same(cmd, "rg") || same(cmd, "grep") || same(cmd, "which") || same(
        cmd,
        "whereis",
    ) || same(cmd, "cut") || same(cmd, "uniq") || same(cmd, "nl") || same(cmd, "stat") || same(
        cmd,
        "file",
    ) || same(cmd, "realpath") || same(cmd, "readlink") || same(cmd, "basename") || same(
        cmd,
        "dirname",
    ) || same(cmd, "echo") || same(cmd, "tr") || same(cmd, "awk") || same(cmd, "cargo") || same(
        cmd,
        "make",
    )
}

/// A shell, or an interpreter that runs code given with `-c`.
pub open spec fn interpreter(cmd: Seq<char>) -> bool {
    cmd == "bash"@ || cmd == "sh"@ || cmd == "zsh"@ || cmd == "fish"@ || cmd == "python"@ || cmd
        == "python3"@
}

fn is_interpreter(cmd: &str) -> (r: bool)
    ensures
        r == interpreter(cmd@),
{
    same(cmd, "bash") || same(cmd, "sh") || same(cmd, "zsh") || same(cmd, "fish") || same(
        cmd,
        "python",
    ) || same(cmd, "python3")
}

/// The words of a stage that only reads, checks syntax or builds. Everything that is not listed
/// here asks first.
pub open spec fn safe(words: Seq<Seq<char>>) -> bool {
    let cmd = words[0];
    if always_dangerous(cmd) {
        false
    } else if always_safe(cmd) {
        true
    } else if cmd == "sed"@ {
        !sed_edits(words)
    } else if cmd == "sort"@ {
        !sort_writes(words)
    } else if cmd == "tree"@ {
        !tree_writes(words)
    } else if cmd == "find"@ {
        !any_word(words, 1, |t: Seq<char>| find_flag(t))
    } else if cmd == "rm"@ {
        !rm_forces(words)
    } else if cmd == "git"@ {
        git_reads(words)
    } else if cmd == "perl"@ {
        perl_checks(words)
    } else if cmd == "ruby"@ {
        ruby_checks(words)
    } else if cmd == "node"@ {
        node_checks(words)
    } else {
        interpreter(cmd) && !runs_inline(words)
    }
}

/// Whether a stage asks for approval.
pub fn shell_tokens_are_dangerous(tokens: &[String]) -> (r: bool)
    requires
        tokens@.len() > 0,
    ensures
        r == !safe(texts(tokens@)),
{
    let ghost words = texts(tokens@);
    let cmd = tokens[0].as_str();
    assert(cmd@ == words[0]);
    if is_always_dangerous(cmd) {
        true
    } else if is_always_safe(cmd) {
        false
    } else if same(cmd, "sed") {
        does_sed_edit(tokens)
    } else if same(cmd, "sort") {
        does_sort_write(tokens)
    } else if same(cmd, "tree") {
        does_tree_write(tokens)
    } else if same(cmd, "find") {
        find_is_dangerous(tokens)
    } else if same(cmd, "rm") {
        rm_is_dangerous(tokens)
    } else if same(cmd, "git") {
        !git_is_read_only(tokens)
    } else if same(cmd, "perl") {
        !does_perl_check(tokens)
    } else if same(cmd, "ruby") {
        !does_ruby_check(tokens)
    } else if same(cmd, "node") {
        !does_node_check(tokens)
    } else if is_interpreter(cmd) {
        does_run_inline(tokens)
    } else {
        true
    }
}

// ---- What the rules come to --------------------------------------------------------------------

proof fn lemma_commands_are_told_apart(words: Seq<Seq<char>>)
    ensures
        words[0] == "sed"@ ==> safe(words) == !sed_edits(words),
        words[0] == "sort"@ ==> safe(words) == !sort_writes(words),
        words[0] == "tree"@ ==> safe(words) == !tree_writes(words),
        words[0] == "find"@ ==> safe(words) == !any_word(
            words,
            1,
            |t: Seq<char>| find_flag(t),
        ),
        words[0] == "rm"@ ==> safe(words) == !rm_forces(words),
        words[0] == "git"@ ==> safe(words) == git_reads(words),
        words[0] == "perl"@ ==> safe(words) == perl_checks(words),
        words[0] == "ruby"@ ==> safe(words) == ruby_checks(words),
        words[0] == "node"@ ==> safe(words) == node_checks(words),
        words[0] == "bash"@ || words[0] == "sh"@ || words[0] == "zsh"@ || words[0] == "fish"@
            || words[0] == "python"@ || words[0] == "python3"@ ==> safe(words) == !runs_inline(
            words,
        ),
{
    reveal_strlit("sed");
    reveal_strlit("dd");
    reveal_strlit("fdisk");
    reveal_strlit("parted");
    reveal_strlit("diskutil");
    reveal_strlit("sudo");
    reveal_strlit("xargs");
    reveal_strlit("pwd");
    reveal_strlit("ls");
    reveal_strlit("cat");
    reveal_strlit("head");
    reveal_strlit("tail");
    reveal_strlit("wc");
    reveal_strlit("rg");
    reveal_strlit("grep");
    reveal_strlit("which");
    reveal_strlit("whereis");
    reveal_strlit("cut");
    reveal_strlit("uniq");
    reveal_strlit("nl");
    reveal_strlit("stat");
    reveal_strlit("file");
    reveal_strlit("realpath");
    reveal_strlit("readlink");
    reveal_strlit("basename");
    reveal_strlit("dirname");
    reveal_strlit("echo");
    reveal_strlit("tr");
    reveal_strlit("awk");
    reveal_strlit("cargo");
    reveal_strlit("make");
    reveal_strlit("sort");
    reveal_strlit("tree");
    reveal_strlit("find");
    reveal_strlit("rm");
    reveal_strlit("git");
    reveal_strlit("perl");
    reveal_strlit("ruby");
    reveal_strlit("node");
    reveal_strlit("bash");
    reveal_strlit("sh");
    reveal_strlit("zsh");
    reveal_strlit("fish");
    reveal_strlit("python");
    reveal_strlit("python3");
    assert("sed"@.len() == 3);
    assert("dd"@.len() == 2);
    assert("fdisk"@.len() == 5);
    assert("parted"@.len() == 6);
    assert("diskutil"@.len() == 8);
    assert("sudo"@.len() == 4);
    assert("xargs"@.len() == 5);
    assert("sed"@[0] == 's');
    assert("pwd"@[0] == 'p');
    assert("ls"@.len() == 2);
    assert("cat"@[0] == 'c');
    assert("head"@.len() == 4);
    assert("tail"@.len() == 4);
    assert("wc"@.len() == 2);
    assert("rg"@.len() == 2);
    assert("grep"@.len() == 4);
    assert("which"@.len() == 5);
    assert("whereis"@.len() == 7);
    assert("cut"@[0] == 'c');
    assert("uniq"@.len() == 4);
    assert("nl"@.len() == 2);
    assert("stat"@.len() == 4);
    assert("file"@.len() == 4);
    assert("realpath"@.len() == 8);
    assert("readlink"@.len() == 8);
    assert("basename"@.len() == 8);
    assert("dirname"@.len() == 7);
    assert("echo"@.len() == 4);
    assert("tr"@.len() == 2);
    assert("awk"@[0] == 'a');
    assert("cargo"@.len() == 5);
    assert("make"@.len() == 4);
    assert("sort"@.len() == 4);
    assert("sort"@[1] == 'o');
    assert("sudo"@[1] == 'u');
    assert("pwd"@.len() == 3);
    assert("cat"@.len() == 3);
    assert("sort"@[0] == 's');
    assert("head"@[0] == 'h');
    assert("tail"@[0] == 't');
    assert("grep"@[0] == 'g');
    assert("cut"@.len() == 3);
    assert("uniq"@[0] == 'u');
    assert("stat"@[1] == 't');
    assert("file"@[0] == 'f');
    assert("echo"@[0] == 'e');
    assert("awk"@.len() == 3);
    assert("make"@[0] == 'm');
    assert("tree"@.len() == 4);
    assert("tree"@[0] == 't');
    assert("sudo"@[0] == 's');
    assert("tree"@[1] == 'r');
    assert("tail"@[1] == 'a');
    assert("stat"@[0] == 's');
    assert("find"@.len() == 4);
    assert("find"@[0] == 'f');
    assert("find"@[2] == 'n');
    assert("file"@[2] == 'l');
    assert("rm"@[0] == 'r');
    assert("dd"@[0] == 'd');
    assert("rm"@.len() == 2);
    assert("ls"@[0] == 'l');
    assert("wc"@[0] == 'w');
    assert("rm"@[1] == 'm');
    assert("rg"@[1] == 'g');
    assert("nl"@[0] == 'n');
    assert("tr"@[0] == 't');
    assert("git"@.len() == 3);
    assert("git"@[0] == 'g');
    assert("perl"@.len() == 4);
    assert("perl"@[0] == 'p');
    assert("ruby"@.len() == 4);
    assert("ruby"@[0] == 'r');
    assert("node"@.len() == 4);
    assert("node"@[0] == 'n');
    assert("bash"@.len() == 4);
    assert("bash"@[0] == 'b');
    assert("sh"@[0] == 's');
    assert("sh"@.len() == 2);
    assert("rg"@[0] == 'r');
    assert("zsh"@.len() == 3);
    assert("zsh"@[0] == 'z');
    assert("fish"@.len() == 4);
    assert("fish"@[0] == 'f');
    assert("fish"@[2] == 's');
    assert("python"@.len() == 6);
    assert("python"@[1] == 'y');
    assert("parted"@[1] == 'a');
    assert("python3"@.len() == 7);
    assert("python3"@[0] == 'p');
    assert("whereis"@[0] == 'w');
    assert("dirname"@[0] == 'd');
    assert("sed"@[0] == 's');
    assert("sort"@[0] == 's');
    assert("tree"@[0] == 't');
    assert("find"@[0] == 'f');
    assert("rm"@[0] == 'r');
    assert("git"@[0] == 'g');
    assert("perl"@[0] == 'p');
    assert("ruby"@[0] == 'r');
    assert("node"@[0] == 'n');
    assert("bash"@[0] == 'b');
    assert("sh"@[0] == 's');
    assert("zsh"@[0] == 'z');
    assert("fish"@[0] == 'f');
    assert("python"@[0] == 'p');
    assert("python3"@[0] == 'p');
    reveal_strlit("mkfs");
    assert forall|cmd: Seq<char>| "mkfs"@.is_prefix_of(cmd) implies cmd.len() >= 4 && cmd[0] == 'm'
        && cmd[1]
        == 'k' by {
        assert(cmd.subrange(0, 4)[0] == cmd[0] && cmd.subrange(0, 4)[1] == cmd[1]);
    }
}

/// The commands that inform, filter, build or test run with whatever arguments they have. Commands
/// that work on disks, raise privileges or run what they are fed always ask, and so does every
/// command that is not known.
pub proof fn law_known_commands_run(words: Seq<Seq<char>>)
    requires
        words.len() > 0,
    ensures
        ({
            let listed = words[0] == "pwd"@ || words[0] == "ls"@ || words[0] == "cat"@ || words[0]
                == "head"@ || words[0] == "tail"@ || words[0] == "wc"@ || words[0] == "rg"@
                || words[0] == "grep"@ || words[0] == "which"@ || words[0] == "whereis"@ || words[0]
                == "cut"@ || words[0] == "uniq"@ || words[0] == "nl"@ || words[0] == "stat"@
                || words[0] == "file"@ || words[0] == "realpath"@ || words[0] == "readlink"@
                || words[0] == "basename"@ || words[0] == "dirname"@ || words[0] == "echo"@
                || words[0] == "tr"@ || words[0] == "awk"@ || words[0] == "cargo"@ || words[0]
                == "make"@;
            let conditional = words[0] == "sed"@ || words[0] == "sort"@ || words[0] == "tree"@
                || words[0] == "find"@ || words[0] == "rm"@ || words[0] == "git"@ || words[0]
                == "perl"@ || words[0] == "ruby"@ || words[0] == "node"@ || words[0] == "bash"@
                || words[0] == "sh"@ || words[0] == "zsh"@ || words[0] == "fish"@ || words[0]
                == "python"@ || words[0] == "python3"@;
            let barred = words[0] == "dd"@ || words[0] == "fdisk"@ || words[0] == "parted"@
                || words[0] == "diskutil"@ || words[0] == "sudo"@ || words[0] == "xargs"@
                || "mkfs"@.is_prefix_of(words[0]);
            &&& listed ==> safe(words)
            &&& barred ==> !safe(words)
            &&& !listed && !conditional ==> !safe(words)
        }),
{
    reveal_strlit("dd");
    reveal_strlit("pwd");
    reveal_strlit("ls");
    reveal_strlit("cat");
    reveal_strlit("head");
    reveal_strlit("tail");
    reveal_strlit("wc");
    reveal_strlit("rg");
    reveal_strlit("grep");
    reveal_strlit("which");
    reveal_strlit("whereis");
    reveal_strlit("cut");
    reveal_strlit("uniq");
    reveal_strlit("nl");
    reveal_strlit("stat");
    reveal_strlit("file");
    reveal_strlit("realpath");
    reveal_strlit("readlink");
    reveal_strlit("basename");
    reveal_strlit("dirname");
    reveal_strlit("echo");
    reveal_strlit("tr");
    reveal_strlit("awk");
    reveal_strlit("cargo");
    reveal_strlit("make");
    reveal_strlit("fdisk");
    reveal_strlit("parted");
    reveal_strlit("diskutil");
    reveal_strlit("sudo");
    reveal_strlit("xargs");
    assert("dd"@.len() == 2);
    assert("pwd"@.len() == 3);
    assert("dd"@[0] == 'd');
    assert("ls"@[0] == 'l');
    assert("cat"@.len() == 3);
    assert("head"@.len() == 4);
    assert("tail"@.len() == 4);
    assert("wc"@[0] == 'w');
    assert("rg"@[0] == 'r');
    assert("grep"@.len() == 4);
    assert("which"@.len() == 5);
    assert("whereis"@.len() == 7);
    assert("cut"@.len() == 3);
    assert("uniq"@.len() == 4);
    assert("nl"@[0] == 'n');
    assert("stat"@.len() == 4);
    assert("file"@.len() == 4);
    assert("realpath"@.len() == 8);
    assert("readlink"@.len() == 8);
    assert("basename"@.len() == 8);
    assert("dirname"@.len() == 7);
    assert("echo"@.len() == 4);
    assert("tr"@[0] == 't');
    assert("awk"@.len() == 3);
    assert("cargo"@.len() == 5);
    assert("make"@.len() == 4);
    assert("fdisk"@.len() == 5);
    assert("ls"@.len() == 2);
    assert("wc"@.len() == 2);
    assert("rg"@.len() == 2);
    assert("fdisk"@[0] == 'f');
    assert("which"@[0] == 'w');
    assert("nl"@.len() == 2);
    assert("tr"@.len() == 2);
    assert("cargo"@[0] == 'c');
    assert("parted"@.len() == 6);
    assert("diskutil"@.len() == 8);
    assert("diskutil"@[0] == 'd');
    assert("realpath"@[0] == 'r');
    assert("readlink"@[0] == 'r');
    assert("basename"@[0] == 'b');
    assert("sudo"@.len() == 4);
    assert("sudo"@[0] == 's');
    assert("head"@[0] == 'h');
    assert("tail"@[0] == 't');
    assert("grep"@[0] == 'g');
    assert("uniq"@[0] == 'u');
    assert("sudo"@[1] == 'u');
    assert("stat"@[1] == 't');
    assert("file"@[0] == 'f');
    assert("echo"@[0] == 'e');
    assert("make"@[0] == 'm');
    assert("xargs"@.len() == 5);
    assert("xargs"@[0] == 'x');
    assert("pwd"@[0] == 'p');
    assert("ls"@[0] == 'l');
    assert("cat"@[0] == 'c');
    assert("head"@[0] == 'h');
    assert("tail"@[0] == 't');
    assert("wc"@[0] == 'w');
    assert("rg"@[0] == 'r');
    assert("grep"@[0] == 'g');
    assert("which"@[0] == 'w');
    assert("whereis"@[0] == 'w');
    assert("cut"@[0] == 'c');
    assert("uniq"@[0] == 'u');
    assert("nl"@[0] == 'n');
    assert("stat"@[0] == 's');
    assert("file"@[0] == 'f');
    assert("realpath"@[0] == 'r');
    assert("readlink"@[0] == 'r');
    assert("basename"@[0] == 'b');
    assert("dirname"@[0] == 'd');
    assert("echo"@[0] == 'e');
    assert("tr"@[0] == 't');
    assert("awk"@[0] == 'a');
    assert("cargo"@[0] == 'c');
    assert("make"@[0] == 'm');
    reveal_strlit("make");
    assert("make"@[1] == 'a');
    reveal_strlit("mkfs");
    assert forall|cmd: Seq<char>| "mkfs"@.is_prefix_of(cmd) implies cmd.len() >= 4 && cmd[0] == 'm'
        && cmd[1]
        == 'k' by {
        assert(cmd.subrange(0, 4)[0] == cmd[0] && cmd.subrange(0, 4)[1] == cmd[1]);
    }
}

/// A cluster of flags is one dash and letters; a lone dash, and two dashes, are none.
pub proof fn law_clusters_hold_letters(t: Seq<char>, c: char)
    ensures
        cluster_has(t, c) <==> t.len() > 1 && t[0] == '-' && t[1] != '-' && exists|k: int|
            1 <= k < t.len() && #[trigger] t[k] == c,
{
    let rest = t.skip(1);
    if cluster_has(t, c) {
        let k = choose|k: int| 0 <= k < rest.len() && rest[k] == c;
        assert(t[k + 1] == c);
    }
    if t.len() > 1 && t[0] == '-' && t[1] != '-' && exists|k: int|
        1 <= k < t.len() && #[trigger] t[k] == c {
        let k = choose|k: int| 1 <= k < t.len() && #[trigger] t[k] == c;
        assert(rest[k - 1] == c);
    }
}

/// A word sends the output to a file if it begins with `-o`, or is `--output`, with or without a
/// value behind `=`.
pub proof fn law_output_flags(t: Seq<char>)
    ensures
        sets_flag(t, "-o"@) || sets_flag(t, "--output"@) <==> (t.len() > 1 && t[0] == '-' && t[1]
            == 'o') || t == "--output"@ || "--output="@.is_prefix_of(t),
{
    reveal_strlit("-o");
    reveal_strlit("--output");
    reveal_strlit("--output=");
    assert("-o"@.len() == 2 && "-o"@[0] == '-' && "-o"@[1] == 'o');
    assert("--output"@.len() == 8 && "--output"@[0] == '-' && "--output"@[1] == '-');
    assert("--output"@.push('=') =~= "--output="@);
    if "-o"@.is_prefix_of(t) {
        assert(t.subrange(0, 2)[0] == t[0] && t.subrange(0, 2)[1] == t[1]);
    }
    if t.len() > 1 && t[0] == '-' && t[1] == 'o' {
        assert(t.subrange(0, 2) =~= "-o"@);
        if t.len() == 2 {
            assert(t =~= "-o"@);
        }
    }
}

/// A `git` command that runs without asking is one of a few: a subcommand that inspects; `branch`
/// or `tag`; `remote` with nothing but flags; or `stash list`. No word of it sends the output to a
/// file.
pub proof fn law_git_runs_only_what_reads(words: Seq<Seq<char>>)
    requires
        words.len() > 0,
        words[0] == "git"@,
        safe(words),
    ensures
        words.len() > 1,
        words[1] == "status"@ || words[1] == "diff"@ || words[1] == "show"@ || words[1] == "log"@
            || words[1] == "grep"@ || words[1] == "ls-files"@ || words[1] == "rev-parse"@
            || words[1] == "branch"@ || words[1] == "tag"@ || words[1] == "remote"@ || words[1]
            == "stash"@,
        words[1] == "stash"@ ==> words.len() > 2 && words[2] == "list"@,
        words[1] == "remote"@ ==> forall|i: int|
            2 <= i < words.len() ==> #[trigger] words[i].len() > 0 && words[i][0] == '-',
        forall|i: int|
            1 <= i < words.len() ==> !(#[trigger] words[i].len() > 1 && words[i][0] == '-'
                && words[i][1] == 'o') && words[i] != "--output"@ && !"--output="@.is_prefix_of(
                words[i],
            ),
{
    lemma_commands_are_told_apart(words);
    reveal_strlit("status");
    reveal_strlit("stash");
    reveal_strlit("diff");
    reveal_strlit("show");
    reveal_strlit("log");
    reveal_strlit("grep");
    reveal_strlit("ls-files");
    reveal_strlit("rev-parse");
    reveal_strlit("branch");
    reveal_strlit("tag");
    reveal_strlit("remote");
    assert("status"@.len() == 6);
    assert("stash"@.len() == 5);
    assert("diff"@.len() == 4);
    assert("show"@.len() == 4);
    assert("log"@.len() == 3);
    assert("grep"@.len() == 4);
    assert("ls-files"@.len() == 8);
    assert("rev-parse"@.len() == 9);
    assert("branch"@.len() == 6);
    assert("tag"@.len() == 3);
    assert("remote"@.len() == 6);
    assert("status"@[0] == 's');
    assert("remote"@[0] == 'r');
    assert("branch"@[0] == 'b');
    let writes = |t: Seq<char>| sets_flag(t, "-o"@) || sets_flag(t, "--output"@);
    assert forall|i: int| 1 <= i < words.len() implies !(#[trigger] words[i].len() > 1
        && words[i][0]
        == '-' && words[i][1] == 'o') && words[i] != "--output"@ && !"--output="@.is_prefix_of(
        words[i],
    ) by {
        assert(!writes(words[i]));
        law_output_flags(words[i]);
    }
    if words[1] == "remote"@ {
        let named = |t: Seq<char>| positional(t);
        assert forall|i: int| 2 <= i < words.len() implies #[trigger] words[i].len() > 0
            && words[i][0] == '-' by {
            assert(!named(words[i]));
        }
    }
}

/// An inspecting subcommand of `git` runs with whatever arguments it has, if none of them sends the
/// output to a file, and so do `git stash list` and `git remote` with nothing but flags.
pub proof fn law_git_inspection_runs(words: Seq<Seq<char>>)
    requires
        words.len() > 1,
        words[0] == "git"@,
        forall|i: int|
            1 <= i < words.len() ==> !(#[trigger] words[i].len() > 1 && words[i][0] == '-'
                && words[i][1] == 'o') && words[i] != "--output"@ && !"--output="@.is_prefix_of(
                words[i],
            ),
    ensures
        words[1] == "status"@ || words[1] == "diff"@ || words[1] == "show"@ || words[1] == "log"@
            || words[1] == "grep"@ || words[1] == "ls-files"@ || words[1] == "rev-parse"@ ==> safe(
            words,
        ),
        words.len() > 2 && words[1] == "stash"@ && words[2] == "list"@ ==> safe(words),
        words[1] == "remote"@ && (forall|i: int|
            2 <= i < words.len() ==> #[trigger] words[i].len() > 0 && words[i][0] == '-') ==> safe(
            words,
        ),
{
    lemma_commands_are_told_apart(words);
    reveal_strlit("branch");
    reveal_strlit("stash");
    reveal_strlit("tag");
    reveal_strlit("remote");
    assert("branch"@.len() == 6);
    assert("stash"@.len() == 5);
    assert("tag"@.len() == 3);
    assert("remote"@.len() == 6);
    assert("branch"@[0] == 'b');
    assert("remote"@[0] == 'r');
    assert(!writes_output(words)) by {
        let writes = |t: Seq<char>| sets_flag(t, "-o"@) || sets_flag(t, "--output"@);
        assert forall|i: int| 1 <= i < words.len() implies !writes(#[trigger] words[i]) by {
            assert(words[i].len() >= 0);
            law_output_flags(words[i]);
        }
    }
    if words[1] == "remote"@ && (forall|i: int|
        2 <= i < words.len() ==> #[trigger] words[i].len() > 0 && words[i][0] == '-') {
        let named = |t: Seq<char>| positional(t);
        assert forall|i: int| 2 <= i < words.len() implies !named(#[trigger] words[i]) by {
            assert(words[i].len() > 0 && words[i][0] == '-');
        }
    }
}

proof fn lemma_options_have_two_dashes(t: Seq<char>, option: Seq<char>)
    requires
        option.len() > 2,
        option[0] == '-',
        option[1] == '-',
        names_option(t, option),
    ensures
        t.len() > 2,
        t[0] == '-',
        t[1] == '-',
{
    let name = option_name(t);
    crate::lines::lemma_position(t, '=');
    assert(option.subrange(0, name.len() as int)[0] == option[0]);
    assert(option.subrange(0, name.len() as int)[1] == option[1]);
    assert(name[0] == t[0] && name[1] == t[1]);
}

proof fn lemma_listing_flags_by_shape(t: Seq<char>)
    requires
        listing_flag(t),
        t.len() < 3 || t[0] != '-' || t[1] != '-',
    ensures
        listing_cluster(t) || lines_flag(t),
{
    reveal_strlit("--abbrev");
    assert("--abbrev"@.len() == 8 && "--abbrev"@[0] == '-' && "--abbrev"@[1] == '-');
    if names_option(t, "--abbrev"@) {
        lemma_options_have_two_dashes(t, "--abbrev"@);
    }
    reveal_strlit("--all");
    assert("--all"@.len() == 5 && "--all"@[0] == '-' && "--all"@[1] == '-');
    if names_option(t, "--all"@) {
        lemma_options_have_two_dashes(t, "--all"@);
    }
    reveal_strlit("--color");
    assert("--color"@.len() == 7 && "--color"@[0] == '-' && "--color"@[1] == '-');
    if names_option(t, "--color"@) {
        lemma_options_have_two_dashes(t, "--color"@);
    }
    reveal_strlit("--column");
    assert("--column"@.len() == 8 && "--column"@[0] == '-' && "--column"@[1] == '-');
    if names_option(t, "--column"@) {
        lemma_options_have_two_dashes(t, "--column"@);
    }
    reveal_strlit("--contains");
    assert("--contains"@.len() == 10 && "--contains"@[0] == '-' && "--contains"@[1] == '-');
    if names_option(t, "--contains"@) {
        lemma_options_have_two_dashes(t, "--contains"@);
    }
    reveal_strlit("--format");
    assert("--format"@.len() == 8 && "--format"@[0] == '-' && "--format"@[1] == '-');
    if names_option(t, "--format"@) {
        lemma_options_have_two_dashes(t, "--format"@);
    }
    reveal_strlit("--help");
    assert("--help"@.len() == 6 && "--help"@[0] == '-' && "--help"@[1] == '-');
    if names_option(t, "--help"@) {
        lemma_options_have_two_dashes(t, "--help"@);
    }
    reveal_strlit("--ignore-case");
    assert("--ignore-case"@.len() == 13 && "--ignore-case"@[0] == '-' && "--ignore-case"@[1]
        == '-');
    if names_option(t, "--ignore-case"@) {
        lemma_options_have_two_dashes(t, "--ignore-case"@);
    }
    reveal_strlit("--list");
    assert("--list"@.len() == 6 && "--list"@[0] == '-' && "--list"@[1] == '-');
    if names_option(t, "--list"@) {
        lemma_options_have_two_dashes(t, "--list"@);
    }
    reveal_strlit("--merged");
    assert("--merged"@.len() == 8 && "--merged"@[0] == '-' && "--merged"@[1] == '-');
    if names_option(t, "--merged"@) {
        lemma_options_have_two_dashes(t, "--merged"@);
    }
    reveal_strlit("--no-abbrev");
    assert("--no-abbrev"@.len() == 11 && "--no-abbrev"@[0] == '-' && "--no-abbrev"@[1] == '-');
    if names_option(t, "--no-abbrev"@) {
        lemma_options_have_two_dashes(t, "--no-abbrev"@);
    }
    reveal_strlit("--no-color");
    assert("--no-color"@.len() == 10 && "--no-color"@[0] == '-' && "--no-color"@[1] == '-');
    if names_option(t, "--no-color"@) {
        lemma_options_have_two_dashes(t, "--no-color"@);
    }
    reveal_strlit("--no-column");
    assert("--no-column"@.len() == 11 && "--no-column"@[0] == '-' && "--no-column"@[1] == '-');
    if names_option(t, "--no-column"@) {
        lemma_options_have_two_dashes(t, "--no-column"@);
    }
    reveal_strlit("--no-contains");
    assert("--no-contains"@.len() == 13 && "--no-contains"@[0] == '-' && "--no-contains"@[1]
        == '-');
    if names_option(t, "--no-contains"@) {
        lemma_options_have_two_dashes(t, "--no-contains"@);
    }
    reveal_strlit("--no-merged");
    assert("--no-merged"@.len() == 11 && "--no-merged"@[0] == '-' && "--no-merged"@[1] == '-');
    if names_option(t, "--no-merged"@) {
        lemma_options_have_two_dashes(t, "--no-merged"@);
    }
    reveal_strlit("--omit-empty");
    assert("--omit-empty"@.len() == 12 && "--omit-empty"@[0] == '-' && "--omit-empty"@[1] == '-');
    if names_option(t, "--omit-empty"@) {
        lemma_options_have_two_dashes(t, "--omit-empty"@);
    }
    reveal_strlit("--points-at");
    assert("--points-at"@.len() == 11 && "--points-at"@[0] == '-' && "--points-at"@[1] == '-');
    if names_option(t, "--points-at"@) {
        lemma_options_have_two_dashes(t, "--points-at"@);
    }
    reveal_strlit("--quiet");
    assert("--quiet"@.len() == 7 && "--quiet"@[0] == '-' && "--quiet"@[1] == '-');
    if names_option(t, "--quiet"@) {
        lemma_options_have_two_dashes(t, "--quiet"@);
    }
    reveal_strlit("--remotes");
    assert("--remotes"@.len() == 9 && "--remotes"@[0] == '-' && "--remotes"@[1] == '-');
    if names_option(t, "--remotes"@) {
        lemma_options_have_two_dashes(t, "--remotes"@);
    }
    reveal_strlit("--show-current");
    assert("--show-current"@.len() == 14 && "--show-current"@[0] == '-' && "--show-current"@[1]
        == '-');
    if names_option(t, "--show-current"@) {
        lemma_options_have_two_dashes(t, "--show-current"@);
    }
    reveal_strlit("--sort");
    assert("--sort"@.len() == 6 && "--sort"@[0] == '-' && "--sort"@[1] == '-');
    if names_option(t, "--sort"@) {
        lemma_options_have_two_dashes(t, "--sort"@);
    }
    reveal_strlit("--verbose");
    assert("--verbose"@.len() == 9 && "--verbose"@[0] == '-' && "--verbose"@[1] == '-');
    if names_option(t, "--verbose"@) {
        lemma_options_have_two_dashes(t, "--verbose"@);
    }
}

/// `git branch` and `git tag` run without asking only where they list: a single-dash flag holds
/// only letters that list, or tells how many lines are shown; and a name stands only beside `-l` or
/// `--list`, as a pattern.
pub proof fn law_git_branch_and_tag_only_list(words: Seq<Seq<char>>)
    requires
        words.len() > 1,
        words[0] == "git"@,
        words[1] == "branch"@ || words[1] == "tag"@,
        safe(words),
    ensures
        forall|i: int, k: int|
            2 <= i < words.len() && words[i].len() > 1 && words[i][0] == '-' && words[i][1] != '-'
                && words[i][1] != 'n' && 1 <= k < words[i].len() ==> (#[trigger] words[i][k] == 'a'
                || words[i][k] == 'h' || words[i][k] == 'i' || words[i][k] == 'l' || words[i][k]
                == 'q' || words[i][k] == 'r' || words[i][k] == 'v'),
        forall|i: int, k: int|
            2 <= i < words.len() && words[i].len() > 1 && words[i][0] == '-' && words[i][1] == 'n'
                && 2 <= k < words[i].len() ==> '0' <= #[trigger] words[i][k] <= '9',
        forall|i: int|
            2 <= i < words.len() && !(#[trigger] words[i].len() > 0 && words[i][0]
                == '-') ==> exists|
                j: int,
            |
                2 <= j < words.len() && (#[trigger] words[j] == "-l"@ || words[j] == "--list"@),
        forall|i: int| 2 <= i < words.len() ==> #[trigger] words[i] != "-"@,
{
    lemma_commands_are_told_apart(words);
    reveal_strlit("status");
    reveal_strlit("branch");
    reveal_strlit("diff");
    reveal_strlit("show");
    reveal_strlit("log");
    reveal_strlit("grep");
    reveal_strlit("ls-files");
    reveal_strlit("rev-parse");
    reveal_strlit("tag");
    assert("status"@[0] == 's');
    assert("branch"@[0] == 'b');
    assert("diff"@.len() == 4);
    assert("branch"@.len() == 6);
    assert("show"@.len() == 4);
    assert("log"@.len() == 3);
    assert("grep"@.len() == 4);
    assert("ls-files"@.len() == 8);
    assert("rev-parse"@.len() == 9);
    assert("status"@.len() == 6);
    assert("tag"@.len() == 3);
    assert("log"@[0] == 'l');
    assert("tag"@[0] == 't');
    reveal_strlit("--");
    reveal_strlit("-");
    assert("--"@.len() == 2 && "--"@[0] == '-' && "--"@[1] == '-');
    assert("-"@.len() == 1 && "-"@[0] == '-');
    let changes = |t: Seq<char>| changing_flag(t);
    let names = |t: Seq<char>| positional(t);
    let lists = |t: Seq<char>| list_flag(t);
    assert forall|i: int, k: int|
        2 <= i < words.len() && words[i].len() > 1 && words[i][0] == '-' && words[i][1] != '-'
            && words[i][1] != 'n' && 1 <= k < words[i].len() implies (#[trigger] words[i][k] == 'a'
        || words[i][k] == 'h' || words[i][k] == 'i' || words[i][k] == 'l' || words[i][k] == 'q'
        || words[i][k] == 'r' || words[i][k] == 'v') by {
        assert(!changes(words[i]));
        lemma_listing_flags_by_shape(words[i]);
        assert(listing_letter(words[i][k]));
    }
    assert forall|i: int, k: int|
        2 <= i < words.len() && words[i].len() > 1 && words[i][0] == '-' && words[i][1] == 'n' && 2
            <= k < words[i].len() implies '0' <= #[trigger] words[i][k] <= '9' by {
        assert(!changes(words[i]));
        lemma_listing_flags_by_shape(words[i]);
        assert(!listing_letter(words[i][1]));
        assert(is_digit(words[i][k]));
    }
    assert forall|i: int| 2 <= i < words.len() && !(#[trigger] words[i].len() > 0 && words[i][0]
        == '-') implies exists|j: int|
        2 <= j < words.len() && (#[trigger] words[j] == "-l"@ || words[j] == "--list"@) by {
        assert(names(words[i]));
        let j = choose|j: int| 2 <= j < words.len() && lists(#[trigger] words[j]);
        assert(words[j] == "-l"@ || words[j] == "--list"@);
    }
    assert forall|i: int| 2 <= i < words.len() implies #[trigger] words[i] != "-"@ by {
        assert(!changes(words[i]));
        if words[i] == "-"@ {
            lemma_listing_flags_by_shape(words[i]);
        }
    }
}

/// `git branch` and `git tag` run where every word after them is a flag of letters that list, and
/// with any names too where one of the flags is `-l`.
pub proof fn law_git_listing_runs(words: Seq<Seq<char>>)
    requires
        words.len() > 1,
        words[0] == "git"@,
        words[1] == "branch"@ || words[1] == "tag"@,
        forall|i: int|
            2 <= i < words.len() && #[trigger] words[i].len() > 0 && words[i][0] == '-' ==> words[i]
                == "-a"@ || words[i] == "-r"@ || words[i] == "-v"@ || words[i] == "-vv"@ || words[i]
                == "-l"@ || words[i] == "-i"@ || words[i] == "-q"@ || words[i] == "-h"@ || words[i]
                == "-n"@,
        (exists|i: int| 2 <= i < words.len() && #[trigger] words[i] == "-l"@) || forall|i: int|
            2 <= i < words.len() ==> #[trigger] words[i].len() > 0 && words[i][0] == '-',
    ensures
        safe(words),
{
    lemma_commands_are_told_apart(words);
    reveal_strlit("status");
    reveal_strlit("branch");
    reveal_strlit("diff");
    reveal_strlit("show");
    reveal_strlit("log");
    reveal_strlit("grep");
    reveal_strlit("ls-files");
    reveal_strlit("rev-parse");
    reveal_strlit("tag");
    assert("status"@[0] == 's');
    assert("branch"@[0] == 'b');
    assert("diff"@.len() == 4);
    assert("branch"@.len() == 6);
    assert("show"@.len() == 4);
    assert("log"@.len() == 3);
    assert("grep"@.len() == 4);
    assert("ls-files"@.len() == 8);
    assert("rev-parse"@.len() == 9);
    assert("status"@.len() == 6);
    assert("tag"@.len() == 3);
    assert("log"@[0] == 'l');
    assert("tag"@[0] == 't');
    reveal_strlit("-a");
    reveal_strlit("-r");
    reveal_strlit("-v");
    reveal_strlit("-vv");
    reveal_strlit("-l");
    reveal_strlit("-i");
    reveal_strlit("-q");
    reveal_strlit("-h");
    reveal_strlit("-n");
    reveal_strlit("branch");
    reveal_strlit("tag");
    assert("branch"@[0] == 'b' && "tag"@[0] == 't');
    assert(!writes_output(words)) by {
        let writes = |t: Seq<char>| sets_flag(t, "-o"@) || sets_flag(t, "--output"@);
        reveal_strlit("--output");
        reveal_strlit("--output=");
        assert("--output"@.len() == 8 && "--output"@[0] == '-');
        assert("--output="@.len() == 9 && "--output="@[0] == '-');
        assert forall|i: int| 1 <= i < words.len() implies !writes(#[trigger] words[i]) by {
            assert(words[i].len() >= 0);
            law_output_flags(words[i]);
            if "--output="@.is_prefix_of(words[i]) {
                assert(words[i].subrange(0, 9)[0] == words[i][0]);
            }
        }
    }
    let changes = |t: Seq<char>| changing_flag(t);
    let names = |t: Seq<char>| positional(t);
    let lists = |t: Seq<char>| list_flag(t);
    assert forall|i: int| 2 <= i < words.len() implies !changes(#[trigger] words[i]) by {
        assert(words[i].len() >= 0);
        if dashed(words[i]) {
            assert(listing_cluster(words[i]) || lines_flag(words[i]));
        }
    }
    if exists|i: int| 2 <= i < words.len() && #[trigger] words[i] == "-l"@ {
        let i = choose|i: int| 2 <= i < words.len() && #[trigger] words[i] == "-l"@;
        assert(lists(words[i]));
    } else {
        assert forall|i: int| 2 <= i < words.len() implies !names(#[trigger] words[i]) by {
            assert(words[i].len() > 0 && words[i][0] == '-');
        }
    }
}

proof fn lemma_no_beginning(a: Seq<char>, b: Seq<char>, k: int)
    requires
        0 <= k < a.len(),
        k >= b.len() || a[k] != b[k],
    ensures
        !a.is_prefix_of(b),
{
    if a.is_prefix_of(b) {
        assert(b.subrange(0, a.len() as int)[k] == b[k]);
    }
}

/// An option may be written in full, shortened to three letters or more with its dashes, and with a
/// value behind `=`.
pub proof fn law_options_may_be_shortened(option: Seq<char>, n: int, value: Seq<char>)
    requires
        2 < n <= option.len(),
        !option.contains('='),
    ensures
        names_option(option.take(n), option),
        names_option(option.take(n).push('=') + value, option),
        !names_option(option.push('x'), option),
        !names_option(option.take(2), option),
{
    let short = option.take(n);
    let valued = short.push('=') + value;
    assert forall|i: int| 0 <= i < option.len() implies option[i] != '=' by {
        assert(option.contains(option[i]));
    }
    lemma_position_at(short, '=', n as nat);
    assert(option_name(short) =~= short);
    assert(short =~= option.subrange(0, n));
    lemma_position_at(valued, '=', n as nat);
    assert(option_name(valued) =~= short);
    let longer = option.push('x');
    lemma_position_at(longer, '=', longer.len());
    assert(option_name(longer) =~= longer);
    crate::lines::lemma_position(option.take(2), '=');
}

/// A long flag that moves, deletes, copies or makes a branch or a tag asks, with or without a
/// value.
pub proof fn law_git_changes_ask(words: Seq<Seq<char>>, i: int, flag: Seq<char>, value: Seq<char>)
    requires
        2 <= i < words.len(),
        words[0] == "git"@,
        words[1] == "branch"@ || words[1] == "tag"@,
        flag == "--delete"@ || flag == "--move"@ || flag == "--copy"@ || flag == "--force"@ || flag
            == "--edit-description"@ || flag == "--unset-upstream"@ || flag == "--set-upstream-to"@
            || flag == "--track"@ || flag == "--annotate"@ || flag == "--sign"@ || flag
            == "--message"@,
        words[i] == flag || words[i] == flag.push('=') + value,
    ensures
        !safe(words),
{
    lemma_commands_are_told_apart(words);
    reveal_strlit("status");
    reveal_strlit("branch");
    reveal_strlit("diff");
    reveal_strlit("show");
    reveal_strlit("log");
    reveal_strlit("grep");
    reveal_strlit("ls-files");
    reveal_strlit("rev-parse");
    reveal_strlit("tag");
    assert("status"@[0] == 's');
    assert("branch"@[0] == 'b');
    assert("diff"@.len() == 4);
    assert("branch"@.len() == 6);
    assert("show"@.len() == 4);
    assert("log"@.len() == 3);
    assert("grep"@.len() == 4);
    assert("ls-files"@.len() == 8);
    assert("rev-parse"@.len() == 9);
    assert("status"@.len() == 6);
    assert("tag"@.len() == 3);
    assert("log"@[0] == 'l');
    assert("tag"@[0] == 't');
    reveal_strlit("--delete");
    assert("--delete"@.len() == 8 && "--delete"@[0] == '-' && "--delete"@[1] == '-'
        && "--delete"@[2] == 'd' && "--delete"@[3] == 'e' && "--delete"@[4] == 'l' && "--delete"@[5]
        == 'e' && "--delete"@[6] == 't' && "--delete"@[7] == 'e');
    reveal_strlit("--move");
    assert("--move"@.len() == 6 && "--move"@[0] == '-' && "--move"@[1] == '-' && "--move"@[2] == 'm'
        && "--move"@[3] == 'o' && "--move"@[4] == 'v' && "--move"@[5] == 'e');
    reveal_strlit("--copy");
    assert("--copy"@.len() == 6 && "--copy"@[0] == '-' && "--copy"@[1] == '-' && "--copy"@[2] == 'c'
        && "--copy"@[3] == 'o' && "--copy"@[4] == 'p' && "--copy"@[5] == 'y');
    reveal_strlit("--force");
    assert("--force"@.len() == 7 && "--force"@[0] == '-' && "--force"@[1] == '-' && "--force"@[2]
        == 'f' && "--force"@[3] == 'o' && "--force"@[4] == 'r' && "--force"@[5] == 'c'
        && "--force"@[6] == 'e');
    reveal_strlit("--edit-description");
    assert("--edit-description"@.len() == 18 && "--edit-description"@[0] == '-'
        && "--edit-description"@[1] == '-' && "--edit-description"@[2] == 'e'
        && "--edit-description"@[3] == 'd' && "--edit-description"@[4] == 'i'
        && "--edit-description"@[5] == 't' && "--edit-description"@[6] == '-'
        && "--edit-description"@[7] == 'd' && "--edit-description"@[8] == 'e'
        && "--edit-description"@[9] == 's' && "--edit-description"@[10] == 'c'
        && "--edit-description"@[11] == 'r' && "--edit-description"@[12] == 'i'
        && "--edit-description"@[13] == 'p' && "--edit-description"@[14] == 't'
        && "--edit-description"@[15] == 'i' && "--edit-description"@[16] == 'o'
        && "--edit-description"@[17] == 'n');
    reveal_strlit("--unset-upstream");
    assert("--unset-upstream"@.len() == 16 && "--unset-upstream"@[0] == '-'
        && "--unset-upstream"@[1] == '-' && "--unset-upstream"@[2] == 'u' && "--unset-upstream"@[3]
        == 'n' && "--unset-upstream"@[4] == 's' && "--unset-upstream"@[5] == 'e'
        && "--unset-upstream"@[6] == 't' && "--unset-upstream"@[7] == '-' && "--unset-upstream"@[8]
        == 'u' && "--unset-upstream"@[9] == 'p' && "--unset-upstream"@[10] == 's'
        && "--unset-upstream"@[11] == 't' && "--unset-upstream"@[12] == 'r'
        && "--unset-upstream"@[13] == 'e' && "--unset-upstream"@[14] == 'a'
        && "--unset-upstream"@[15] == 'm');
    reveal_strlit("--set-upstream-to");
    assert("--set-upstream-to"@.len() == 17 && "--set-upstream-to"@[0] == '-'
        && "--set-upstream-to"@[1] == '-' && "--set-upstream-to"@[2] == 's'
        && "--set-upstream-to"@[3] == 'e' && "--set-upstream-to"@[4] == 't'
        && "--set-upstream-to"@[5] == '-' && "--set-upstream-to"@[6] == 'u'
        && "--set-upstream-to"@[7] == 'p' && "--set-upstream-to"@[8] == 's'
        && "--set-upstream-to"@[9] == 't' && "--set-upstream-to"@[10] == 'r'
        && "--set-upstream-to"@[11] == 'e' && "--set-upstream-to"@[12] == 'a'
        && "--set-upstream-to"@[13] == 'm' && "--set-upstream-to"@[14] == '-'
        && "--set-upstream-to"@[15] == 't' && "--set-upstream-to"@[16] == 'o');
    reveal_strlit("--track");
    assert("--track"@.len() == 7 && "--track"@[0] == '-' && "--track"@[1] == '-' && "--track"@[2]
        == 't' && "--track"@[3] == 'r' && "--track"@[4] == 'a' && "--track"@[5] == 'c'
        && "--track"@[6] == 'k');
    reveal_strlit("--annotate");
    assert("--annotate"@.len() == 10 && "--annotate"@[0] == '-' && "--annotate"@[1] == '-'
        && "--annotate"@[2] == 'a' && "--annotate"@[3] == 'n' && "--annotate"@[4] == 'n'
        && "--annotate"@[5] == 'o' && "--annotate"@[6] == 't' && "--annotate"@[7] == 'a'
        && "--annotate"@[8] == 't' && "--annotate"@[9] == 'e');
    reveal_strlit("--sign");
    assert("--sign"@.len() == 6 && "--sign"@[0] == '-' && "--sign"@[1] == '-' && "--sign"@[2] == 's'
        && "--sign"@[3] == 'i' && "--sign"@[4] == 'g' && "--sign"@[5] == 'n');
    reveal_strlit("--message");
    assert("--message"@.len() == 9 && "--message"@[0] == '-' && "--message"@[1] == '-'
        && "--message"@[2] == 'm' && "--message"@[3] == 'e' && "--message"@[4] == 's'
        && "--message"@[5] == 's' && "--message"@[6] == 'a' && "--message"@[7] == 'g'
        && "--message"@[8] == 'e');
    reveal_strlit("--abbrev");
    assert("--abbrev"@.len() == 8 && "--abbrev"@[0] == '-' && "--abbrev"@[1] == '-'
        && "--abbrev"@[2] == 'a' && "--abbrev"@[3] == 'b' && "--abbrev"@[4] == 'b' && "--abbrev"@[5]
        == 'r' && "--abbrev"@[6] == 'e' && "--abbrev"@[7] == 'v');
    reveal_strlit("--all");
    assert("--all"@.len() == 5 && "--all"@[0] == '-' && "--all"@[1] == '-' && "--all"@[2] == 'a'
        && "--all"@[3] == 'l' && "--all"@[4] == 'l');
    reveal_strlit("--color");
    assert("--color"@.len() == 7 && "--color"@[0] == '-' && "--color"@[1] == '-' && "--color"@[2]
        == 'c' && "--color"@[3] == 'o' && "--color"@[4] == 'l' && "--color"@[5] == 'o'
        && "--color"@[6] == 'r');
    reveal_strlit("--column");
    assert("--column"@.len() == 8 && "--column"@[0] == '-' && "--column"@[1] == '-'
        && "--column"@[2] == 'c' && "--column"@[3] == 'o' && "--column"@[4] == 'l' && "--column"@[5]
        == 'u' && "--column"@[6] == 'm' && "--column"@[7] == 'n');
    reveal_strlit("--contains");
    assert("--contains"@.len() == 10 && "--contains"@[0] == '-' && "--contains"@[1] == '-'
        && "--contains"@[2] == 'c' && "--contains"@[3] == 'o' && "--contains"@[4] == 'n'
        && "--contains"@[5] == 't' && "--contains"@[6] == 'a' && "--contains"@[7] == 'i'
        && "--contains"@[8] == 'n' && "--contains"@[9] == 's');
    reveal_strlit("--format");
    assert("--format"@.len() == 8 && "--format"@[0] == '-' && "--format"@[1] == '-'
        && "--format"@[2] == 'f' && "--format"@[3] == 'o' && "--format"@[4] == 'r' && "--format"@[5]
        == 'm' && "--format"@[6] == 'a' && "--format"@[7] == 't');
    reveal_strlit("--help");
    assert("--help"@.len() == 6 && "--help"@[0] == '-' && "--help"@[1] == '-' && "--help"@[2] == 'h'
        && "--help"@[3] == 'e' && "--help"@[4] == 'l' && "--help"@[5] == 'p');
    reveal_strlit("--ignore-case");
    assert("--ignore-case"@.len() == 13 && "--ignore-case"@[0] == '-' && "--ignore-case"@[1] == '-'
        && "--ignore-case"@[2] == 'i' && "--ignore-case"@[3] == 'g' && "--ignore-case"@[4] == 'n'
        && "--ignore-case"@[5] == 'o' && "--ignore-case"@[6] == 'r' && "--ignore-case"@[7] == 'e'
        && "--ignore-case"@[8] == '-' && "--ignore-case"@[9] == 'c' && "--ignore-case"@[10] == 'a'
        && "--ignore-case"@[11] == 's' && "--ignore-case"@[12] == 'e');
    reveal_strlit("--list");
    assert("--list"@.len() == 6 && "--list"@[0] == '-' && "--list"@[1] == '-' && "--list"@[2] == 'l'
        && "--list"@[3] == 'i' && "--list"@[4] == 's' && "--list"@[5] == 't');
    reveal_strlit("--merged");
    assert("--merged"@.len() == 8 && "--merged"@[0] == '-' && "--merged"@[1] == '-'
        && "--merged"@[2] == 'm' && "--merged"@[3] == 'e' && "--merged"@[4] == 'r' && "--merged"@[5]
        == 'g' && "--merged"@[6] == 'e' && "--merged"@[7] == 'd');
    reveal_strlit("--no-abbrev");
    assert("--no-abbrev"@.len() == 11 && "--no-abbrev"@[0] == '-' && "--no-abbrev"@[1] == '-'
        && "--no-abbrev"@[2] == 'n' && "--no-abbrev"@[3] == 'o' && "--no-abbrev"@[4] == '-'
        && "--no-abbrev"@[5] == 'a' && "--no-abbrev"@[6] == 'b' && "--no-abbrev"@[7] == 'b'
        && "--no-abbrev"@[8] == 'r' && "--no-abbrev"@[9] == 'e' && "--no-abbrev"@[10] == 'v');
    reveal_strlit("--no-color");
    assert("--no-color"@.len() == 10 && "--no-color"@[0] == '-' && "--no-color"@[1] == '-'
        && "--no-color"@[2] == 'n' && "--no-color"@[3] == 'o' && "--no-color"@[4] == '-'
        && "--no-color"@[5] == 'c' && "--no-color"@[6] == 'o' && "--no-color"@[7] == 'l'
        && "--no-color"@[8] == 'o' && "--no-color"@[9] == 'r');
    reveal_strlit("--no-column");
    assert("--no-column"@.len() == 11 && "--no-column"@[0] == '-' && "--no-column"@[1] == '-'
        && "--no-column"@[2] == 'n' && "--no-column"@[3] == 'o' && "--no-column"@[4] == '-'
        && "--no-column"@[5] == 'c' && "--no-column"@[6] == 'o' && "--no-column"@[7] == 'l'
        && "--no-column"@[8] == 'u' && "--no-column"@[9] == 'm' && "--no-column"@[10] == 'n');
    reveal_strlit("--no-contains");
    assert("--no-contains"@.len() == 13 && "--no-contains"@[0] == '-' && "--no-contains"@[1] == '-'
        && "--no-contains"@[2] == 'n' && "--no-contains"@[3] == 'o' && "--no-contains"@[4] == '-'
        && "--no-contains"@[5] == 'c' && "--no-contains"@[6] == 'o' && "--no-contains"@[7] == 'n'
        && "--no-contains"@[8] == 't' && "--no-contains"@[9] == 'a' && "--no-contains"@[10] == 'i'
        && "--no-contains"@[11] == 'n' && "--no-contains"@[12] == 's');
    reveal_strlit("--no-merged");
    assert("--no-merged"@.len() == 11 && "--no-merged"@[0] == '-' && "--no-merged"@[1] == '-'
        && "--no-merged"@[2] == 'n' && "--no-merged"@[3] == 'o' && "--no-merged"@[4] == '-'
        && "--no-merged"@[5] == 'm' && "--no-merged"@[6] == 'e' && "--no-merged"@[7] == 'r'
        && "--no-merged"@[8] == 'g' && "--no-merged"@[9] == 'e' && "--no-merged"@[10] == 'd');
    reveal_strlit("--omit-empty");
    assert("--omit-empty"@.len() == 12 && "--omit-empty"@[0] == '-' && "--omit-empty"@[1] == '-'
        && "--omit-empty"@[2] == 'o' && "--omit-empty"@[3] == 'm' && "--omit-empty"@[4] == 'i'
        && "--omit-empty"@[5] == 't' && "--omit-empty"@[6] == '-' && "--omit-empty"@[7] == 'e'
        && "--omit-empty"@[8] == 'm' && "--omit-empty"@[9] == 'p' && "--omit-empty"@[10] == 't'
        && "--omit-empty"@[11] == 'y');
    reveal_strlit("--points-at");
    assert("--points-at"@.len() == 11 && "--points-at"@[0] == '-' && "--points-at"@[1] == '-'
        && "--points-at"@[2] == 'p' && "--points-at"@[3] == 'o' && "--points-at"@[4] == 'i'
        && "--points-at"@[5] == 'n' && "--points-at"@[6] == 't' && "--points-at"@[7] == 's'
        && "--points-at"@[8] == '-' && "--points-at"@[9] == 'a' && "--points-at"@[10] == 't');
    reveal_strlit("--quiet");
    assert("--quiet"@.len() == 7 && "--quiet"@[0] == '-' && "--quiet"@[1] == '-' && "--quiet"@[2]
        == 'q' && "--quiet"@[3] == 'u' && "--quiet"@[4] == 'i' && "--quiet"@[5] == 'e'
        && "--quiet"@[6] == 't');
    reveal_strlit("--remotes");
    assert("--remotes"@.len() == 9 && "--remotes"@[0] == '-' && "--remotes"@[1] == '-'
        && "--remotes"@[2] == 'r' && "--remotes"@[3] == 'e' && "--remotes"@[4] == 'm'
        && "--remotes"@[5] == 'o' && "--remotes"@[6] == 't' && "--remotes"@[7] == 'e'
        && "--remotes"@[8] == 's');
    reveal_strlit("--show-current");
    assert("--show-current"@.len() == 14 && "--show-current"@[0] == '-' && "--show-current"@[1]
        == '-' && "--show-current"@[2] == 's' && "--show-current"@[3] == 'h' && "--show-current"@[4]
        == 'o' && "--show-current"@[5] == 'w' && "--show-current"@[6] == '-' && "--show-current"@[7]
        == 'c' && "--show-current"@[8] == 'u' && "--show-current"@[9] == 'r'
        && "--show-current"@[10] == 'r' && "--show-current"@[11] == 'e' && "--show-current"@[12]
        == 'n' && "--show-current"@[13] == 't');
    reveal_strlit("--sort");
    assert("--sort"@.len() == 6 && "--sort"@[0] == '-' && "--sort"@[1] == '-' && "--sort"@[2] == 's'
        && "--sort"@[3] == 'o' && "--sort"@[4] == 'r' && "--sort"@[5] == 't');
    reveal_strlit("--verbose");
    assert("--verbose"@.len() == 9 && "--verbose"@[0] == '-' && "--verbose"@[1] == '-'
        && "--verbose"@[2] == 'v' && "--verbose"@[3] == 'e' && "--verbose"@[4] == 'r'
        && "--verbose"@[5] == 'b' && "--verbose"@[6] == 'o' && "--verbose"@[7] == 's'
        && "--verbose"@[8] == 'e');
    reveal_strlit("--");
    assert("--"@.len() == 2);
    let t = words[i];
    assert(option_name(t) == flag) by {
        assert forall|k: int| 0 <= k < flag.len() implies flag[k] != '=' by {}
        lemma_position_at(t, '=', flag.len());
        assert(t.take(flag.len() as int) =~= flag);
    }
    assert(t[0] == '-' && t[1] == '-' && t.len() > 2) by {
        assert(t[0] == flag[0] && t[1] == flag[1]);
    }
    if flag == "--delete"@ {
        lemma_no_beginning("--delete"@, "--abbrev"@, 2);
        lemma_no_beginning("--delete"@, "--all"@, 2);
        lemma_no_beginning("--delete"@, "--color"@, 2);
        lemma_no_beginning("--delete"@, "--column"@, 2);
        lemma_no_beginning("--delete"@, "--contains"@, 2);
        lemma_no_beginning("--delete"@, "--format"@, 2);
        lemma_no_beginning("--delete"@, "--help"@, 2);
        lemma_no_beginning("--delete"@, "--ignore-case"@, 2);
        lemma_no_beginning("--delete"@, "--list"@, 2);
        lemma_no_beginning("--delete"@, "--merged"@, 2);
        lemma_no_beginning("--delete"@, "--no-abbrev"@, 2);
        lemma_no_beginning("--delete"@, "--no-color"@, 2);
        lemma_no_beginning("--delete"@, "--no-column"@, 2);
        lemma_no_beginning("--delete"@, "--no-contains"@, 2);
        lemma_no_beginning("--delete"@, "--no-merged"@, 2);
        lemma_no_beginning("--delete"@, "--omit-empty"@, 2);
        lemma_no_beginning("--delete"@, "--points-at"@, 2);
        lemma_no_beginning("--delete"@, "--quiet"@, 2);
        lemma_no_beginning("--delete"@, "--remotes"@, 2);
        lemma_no_beginning("--delete"@, "--show-current"@, 2);
        lemma_no_beginning("--delete"@, "--sort"@, 2);
        lemma_no_beginning("--delete"@, "--verbose"@, 2);
    }
    if flag == "--move"@ {
        lemma_no_beginning("--move"@, "--abbrev"@, 2);
        lemma_no_beginning("--move"@, "--all"@, 2);
        lemma_no_beginning("--move"@, "--color"@, 2);
        lemma_no_beginning("--move"@, "--column"@, 2);
        lemma_no_beginning("--move"@, "--contains"@, 2);
        lemma_no_beginning("--move"@, "--format"@, 2);
        lemma_no_beginning("--move"@, "--help"@, 2);
        lemma_no_beginning("--move"@, "--ignore-case"@, 2);
        lemma_no_beginning("--move"@, "--list"@, 2);
        lemma_no_beginning("--move"@, "--merged"@, 3);
        lemma_no_beginning("--move"@, "--no-abbrev"@, 2);
        lemma_no_beginning("--move"@, "--no-color"@, 2);
        lemma_no_beginning("--move"@, "--no-column"@, 2);
        lemma_no_beginning("--move"@, "--no-contains"@, 2);
        lemma_no_beginning("--move"@, "--no-merged"@, 2);
        lemma_no_beginning("--move"@, "--omit-empty"@, 2);
        lemma_no_beginning("--move"@, "--points-at"@, 2);
        lemma_no_beginning("--move"@, "--quiet"@, 2);
        lemma_no_beginning("--move"@, "--remotes"@, 2);
        lemma_no_beginning("--move"@, "--show-current"@, 2);
        lemma_no_beginning("--move"@, "--sort"@, 2);
        lemma_no_beginning("--move"@, "--verbose"@, 2);
    }
    if flag == "--copy"@ {
        lemma_no_beginning("--copy"@, "--abbrev"@, 2);
        lemma_no_beginning("--copy"@, "--all"@, 2);
        lemma_no_beginning("--copy"@, "--color"@, 4);
        lemma_no_beginning("--copy"@, "--column"@, 4);
        lemma_no_beginning("--copy"@, "--contains"@, 4);
        lemma_no_beginning("--copy"@, "--format"@, 2);
        lemma_no_beginning("--copy"@, "--help"@, 2);
        lemma_no_beginning("--copy"@, "--ignore-case"@, 2);
        lemma_no_beginning("--copy"@, "--list"@, 2);
        lemma_no_beginning("--copy"@, "--merged"@, 2);
        lemma_no_beginning("--copy"@, "--no-abbrev"@, 2);
        lemma_no_beginning("--copy"@, "--no-color"@, 2);
        lemma_no_beginning("--copy"@, "--no-column"@, 2);
        lemma_no_beginning("--copy"@, "--no-contains"@, 2);
        lemma_no_beginning("--copy"@, "--no-merged"@, 2);
        lemma_no_beginning("--copy"@, "--omit-empty"@, 2);
        lemma_no_beginning("--copy"@, "--points-at"@, 2);
        lemma_no_beginning("--copy"@, "--quiet"@, 2);
        lemma_no_beginning("--copy"@, "--remotes"@, 2);
        lemma_no_beginning("--copy"@, "--show-current"@, 2);
        lemma_no_beginning("--copy"@, "--sort"@, 2);
        lemma_no_beginning("--copy"@, "--verbose"@, 2);
    }
    if flag == "--force"@ {
        lemma_no_beginning("--force"@, "--abbrev"@, 2);
        lemma_no_beginning("--force"@, "--all"@, 2);
        lemma_no_beginning("--force"@, "--color"@, 2);
        lemma_no_beginning("--force"@, "--column"@, 2);
        lemma_no_beginning("--force"@, "--contains"@, 2);
        lemma_no_beginning("--force"@, "--format"@, 5);
        lemma_no_beginning("--force"@, "--help"@, 2);
        lemma_no_beginning("--force"@, "--ignore-case"@, 2);
        lemma_no_beginning("--force"@, "--list"@, 2);
        lemma_no_beginning("--force"@, "--merged"@, 2);
        lemma_no_beginning("--force"@, "--no-abbrev"@, 2);
        lemma_no_beginning("--force"@, "--no-color"@, 2);
        lemma_no_beginning("--force"@, "--no-column"@, 2);
        lemma_no_beginning("--force"@, "--no-contains"@, 2);
        lemma_no_beginning("--force"@, "--no-merged"@, 2);
        lemma_no_beginning("--force"@, "--omit-empty"@, 2);
        lemma_no_beginning("--force"@, "--points-at"@, 2);
        lemma_no_beginning("--force"@, "--quiet"@, 2);
        lemma_no_beginning("--force"@, "--remotes"@, 2);
        lemma_no_beginning("--force"@, "--show-current"@, 2);
        lemma_no_beginning("--force"@, "--sort"@, 2);
        lemma_no_beginning("--force"@, "--verbose"@, 2);
    }
    if flag == "--edit-description"@ {
        lemma_no_beginning("--edit-description"@, "--abbrev"@, 2);
        lemma_no_beginning("--edit-description"@, "--all"@, 2);
        lemma_no_beginning("--edit-description"@, "--color"@, 2);
        lemma_no_beginning("--edit-description"@, "--column"@, 2);
        lemma_no_beginning("--edit-description"@, "--contains"@, 2);
        lemma_no_beginning("--edit-description"@, "--format"@, 2);
        lemma_no_beginning("--edit-description"@, "--help"@, 2);
        lemma_no_beginning("--edit-description"@, "--ignore-case"@, 2);
        lemma_no_beginning("--edit-description"@, "--list"@, 2);
        lemma_no_beginning("--edit-description"@, "--merged"@, 2);
        lemma_no_beginning("--edit-description"@, "--no-abbrev"@, 2);
        lemma_no_beginning("--edit-description"@, "--no-color"@, 2);
        lemma_no_beginning("--edit-description"@, "--no-column"@, 2);
        lemma_no_beginning("--edit-description"@, "--no-contains"@, 2);
        lemma_no_beginning("--edit-description"@, "--no-merged"@, 2);
        lemma_no_beginning("--edit-description"@, "--omit-empty"@, 2);
        lemma_no_beginning("--edit-description"@, "--points-at"@, 2);
        lemma_no_beginning("--edit-description"@, "--quiet"@, 2);
        lemma_no_beginning("--edit-description"@, "--remotes"@, 2);
        lemma_no_beginning("--edit-description"@, "--show-current"@, 2);
        lemma_no_beginning("--edit-description"@, "--sort"@, 2);
        lemma_no_beginning("--edit-description"@, "--verbose"@, 2);
    }
    if flag == "--unset-upstream"@ {
        lemma_no_beginning("--unset-upstream"@, "--abbrev"@, 2);
        lemma_no_beginning("--unset-upstream"@, "--all"@, 2);
        lemma_no_beginning("--unset-upstream"@, "--color"@, 2);
        lemma_no_beginning("--unset-upstream"@, "--column"@, 2);
        lemma_no_beginning("--unset-upstream"@, "--contains"@, 2);
        lemma_no_beginning("--unset-upstream"@, "--format"@, 2);
        lemma_no_beginning("--unset-upstream"@, "--help"@, 2);
        lemma_no_beginning("--unset-upstream"@, "--ignore-case"@, 2);
        lemma_no_beginning("--unset-upstream"@, "--list"@, 2);
        lemma_no_beginning("--unset-upstream"@, "--merged"@, 2);
        lemma_no_beginning("--unset-upstream"@, "--no-abbrev"@, 2);
        lemma_no_beginning("--unset-upstream"@, "--no-color"@, 2);
        lemma_no_beginning("--unset-upstream"@, "--no-column"@, 2);
        lemma_no_beginning("--unset-upstream"@, "--no-contains"@, 2);
        lemma_no_beginning("--unset-upstream"@, "--no-merged"@, 2);
        lemma_no_beginning("--unset-upstream"@, "--omit-empty"@, 2);
        lemma_no_beginning("--unset-upstream"@, "--points-at"@, 2);
        lemma_no_beginning("--unset-upstream"@, "--quiet"@, 2);
        lemma_no_beginning("--unset-upstream"@, "--remotes"@, 2);
        lemma_no_beginning("--unset-upstream"@, "--show-current"@, 2);
        lemma_no_beginning("--unset-upstream"@, "--sort"@, 2);
        lemma_no_beginning("--unset-upstream"@, "--verbose"@, 2);
    }
    if flag == "--set-upstream-to"@ {
        lemma_no_beginning("--set-upstream-to"@, "--abbrev"@, 2);
        lemma_no_beginning("--set-upstream-to"@, "--all"@, 2);
        lemma_no_beginning("--set-upstream-to"@, "--color"@, 2);
        lemma_no_beginning("--set-upstream-to"@, "--column"@, 2);
        lemma_no_beginning("--set-upstream-to"@, "--contains"@, 2);
        lemma_no_beginning("--set-upstream-to"@, "--format"@, 2);
        lemma_no_beginning("--set-upstream-to"@, "--help"@, 2);
        lemma_no_beginning("--set-upstream-to"@, "--ignore-case"@, 2);
        lemma_no_beginning("--set-upstream-to"@, "--list"@, 2);
        lemma_no_beginning("--set-upstream-to"@, "--merged"@, 2);
        lemma_no_beginning("--set-upstream-to"@, "--no-abbrev"@, 2);
        lemma_no_beginning("--set-upstream-to"@, "--no-color"@, 2);
        lemma_no_beginning("--set-upstream-to"@, "--no-column"@, 2);
        lemma_no_beginning("--set-upstream-to"@, "--no-contains"@, 2);
        lemma_no_beginning("--set-upstream-to"@, "--no-merged"@, 2);
        lemma_no_beginning("--set-upstream-to"@, "--omit-empty"@, 2);
        lemma_no_beginning("--set-upstream-to"@, "--points-at"@, 2);
        lemma_no_beginning("--set-upstream-to"@, "--quiet"@, 2);
        lemma_no_beginning("--set-upstream-to"@, "--remotes"@, 2);
        lemma_no_beginning("--set-upstream-to"@, "--show-current"@, 3);
        lemma_no_beginning("--set-upstream-to"@, "--sort"@, 3);
        lemma_no_beginning("--set-upstream-to"@, "--verbose"@, 2);
    }
    if flag == "--track"@ {
        lemma_no_beginning("--track"@, "--abbrev"@, 2);
        lemma_no_beginning("--track"@, "--all"@, 2);
        lemma_no_beginning("--track"@, "--color"@, 2);
        lemma_no_beginning("--track"@, "--column"@, 2);
        lemma_no_beginning("--track"@, "--contains"@, 2);
        lemma_no_beginning("--track"@, "--format"@, 2);
        lemma_no_beginning("--track"@, "--help"@, 2);
        lemma_no_beginning("--track"@, "--ignore-case"@, 2);
        lemma_no_beginning("--track"@, "--list"@, 2);
        lemma_no_beginning("--track"@, "--merged"@, 2);
        lemma_no_beginning("--track"@, "--no-abbrev"@, 2);
        lemma_no_beginning("--track"@, "--no-color"@, 2);
        lemma_no_beginning("--track"@, "--no-column"@, 2);
        lemma_no_beginning("--track"@, "--no-contains"@, 2);
        lemma_no_beginning("--track"@, "--no-merged"@, 2);
        lemma_no_beginning("--track"@, "--omit-empty"@, 2);
        lemma_no_beginning("--track"@, "--points-at"@, 2);
        lemma_no_beginning("--track"@, "--quiet"@, 2);
        lemma_no_beginning("--track"@, "--remotes"@, 2);
        lemma_no_beginning("--track"@, "--show-current"@, 2);
        lemma_no_beginning("--track"@, "--sort"@, 2);
        lemma_no_beginning("--track"@, "--verbose"@, 2);
    }
    if flag == "--annotate"@ {
        lemma_no_beginning("--annotate"@, "--abbrev"@, 3);
        lemma_no_beginning("--annotate"@, "--all"@, 3);
        lemma_no_beginning("--annotate"@, "--color"@, 2);
        lemma_no_beginning("--annotate"@, "--column"@, 2);
        lemma_no_beginning("--annotate"@, "--contains"@, 2);
        lemma_no_beginning("--annotate"@, "--format"@, 2);
        lemma_no_beginning("--annotate"@, "--help"@, 2);
        lemma_no_beginning("--annotate"@, "--ignore-case"@, 2);
        lemma_no_beginning("--annotate"@, "--list"@, 2);
        lemma_no_beginning("--annotate"@, "--merged"@, 2);
        lemma_no_beginning("--annotate"@, "--no-abbrev"@, 2);
        lemma_no_beginning("--annotate"@, "--no-color"@, 2);
        lemma_no_beginning("--annotate"@, "--no-column"@, 2);
        lemma_no_beginning("--annotate"@, "--no-contains"@, 2);
        lemma_no_beginning("--annotate"@, "--no-merged"@, 2);
        lemma_no_beginning("--annotate"@, "--omit-empty"@, 2);
        lemma_no_beginning("--annotate"@, "--points-at"@, 2);
        lemma_no_beginning("--annotate"@, "--quiet"@, 2);
        lemma_no_beginning("--annotate"@, "--remotes"@, 2);
        lemma_no_beginning("--annotate"@, "--show-current"@, 2);
        lemma_no_beginning("--annotate"@, "--sort"@, 2);
        lemma_no_beginning("--annotate"@, "--verbose"@, 2);
    }
    if flag == "--sign"@ {
        lemma_no_beginning("--sign"@, "--abbrev"@, 2);
        lemma_no_beginning("--sign"@, "--all"@, 2);
        lemma_no_beginning("--sign"@, "--color"@, 2);
        lemma_no_beginning("--sign"@, "--column"@, 2);
        lemma_no_beginning("--sign"@, "--contains"@, 2);
        lemma_no_beginning("--sign"@, "--format"@, 2);
        lemma_no_beginning("--sign"@, "--help"@, 2);
        lemma_no_beginning("--sign"@, "--ignore-case"@, 2);
        lemma_no_beginning("--sign"@, "--list"@, 2);
        lemma_no_beginning("--sign"@, "--merged"@, 2);
        lemma_no_beginning("--sign"@, "--no-abbrev"@, 2);
        lemma_no_beginning("--sign"@, "--no-color"@, 2);
        lemma_no_beginning("--sign"@, "--no-column"@, 2);
        lemma_no_beginning("--sign"@, "--no-contains"@, 2);
        lemma_no_beginning("--sign"@, "--no-merged"@, 2);
        lemma_no_beginning("--sign"@, "--omit-empty"@, 2);
        lemma_no_beginning("--sign"@, "--points-at"@, 2);
        lemma_no_beginning("--sign"@, "--quiet"@, 2);
        lemma_no_beginning("--sign"@, "--remotes"@, 2);
        lemma_no_beginning("--sign"@, "--show-current"@, 3);
        lemma_no_beginning("--sign"@, "--sort"@, 3);
        lemma_no_beginning("--sign"@, "--verbose"@, 2);
    }
    if flag == "--message"@ {
        lemma_no_beginning("--message"@, "--abbrev"@, 2);
        lemma_no_beginning("--message"@, "--all"@, 2);
        lemma_no_beginning("--message"@, "--color"@, 2);
        lemma_no_beginning("--message"@, "--column"@, 2);
        lemma_no_beginning("--message"@, "--contains"@, 2);
        lemma_no_beginning("--message"@, "--format"@, 2);
        lemma_no_beginning("--message"@, "--help"@, 2);
        lemma_no_beginning("--message"@, "--ignore-case"@, 2);
        lemma_no_beginning("--message"@, "--list"@, 2);
        lemma_no_beginning("--message"@, "--merged"@, 4);
        lemma_no_beginning("--message"@, "--no-abbrev"@, 2);
        lemma_no_beginning("--message"@, "--no-color"@, 2);
        lemma_no_beginning("--message"@, "--no-column"@, 2);
        lemma_no_beginning("--message"@, "--no-contains"@, 2);
        lemma_no_beginning("--message"@, "--no-merged"@, 2);
        lemma_no_beginning("--message"@, "--omit-empty"@, 2);
        lemma_no_beginning("--message"@, "--points-at"@, 2);
        lemma_no_beginning("--message"@, "--quiet"@, 2);
        lemma_no_beginning("--message"@, "--remotes"@, 2);
        lemma_no_beginning("--message"@, "--show-current"@, 2);
        lemma_no_beginning("--message"@, "--sort"@, 2);
        lemma_no_beginning("--message"@, "--verbose"@, 2);
    }
    let changes = |t: Seq<char>| changing_flag(t);
    assert(!listing_cluster(t)) by {
        assert(!listing_letter(t[1]));
    }
    assert(changes(words[i]));
}

/// A long flag that lists may stand behind `git branch` and `git tag`.
pub proof fn law_git_long_listing_runs(words: Seq<Seq<char>>)
    requires
        words.len() == 3,
        words[0] == "git"@,
        words[1] == "branch"@ || words[1] == "tag"@,
        words[2] == "--abbrev"@ || words[2] == "--all"@ || words[2] == "--color"@ || words[2]
            == "--column"@ || words[2] == "--contains"@ || words[2] == "--format"@ || words[2]
            == "--help"@ || words[2] == "--ignore-case"@ || words[2] == "--list"@ || words[2]
            == "--merged"@ || words[2] == "--no-abbrev"@ || words[2] == "--no-color"@ || words[2]
            == "--no-column"@ || words[2] == "--no-contains"@ || words[2] == "--no-merged"@
            || words[2] == "--omit-empty"@ || words[2] == "--points-at"@ || words[2] == "--quiet"@
            || words[2] == "--remotes"@ || words[2] == "--show-current"@ || words[2] == "--sort"@
            || words[2] == "--verbose"@,
    ensures
        safe(words),
{
    lemma_commands_are_told_apart(words);
    reveal_strlit("status");
    reveal_strlit("branch");
    reveal_strlit("diff");
    reveal_strlit("show");
    reveal_strlit("log");
    reveal_strlit("grep");
    reveal_strlit("ls-files");
    reveal_strlit("rev-parse");
    reveal_strlit("tag");
    assert("status"@[0] == 's');
    assert("branch"@[0] == 'b');
    assert("diff"@.len() == 4);
    assert("branch"@.len() == 6);
    assert("show"@.len() == 4);
    assert("log"@.len() == 3);
    assert("grep"@.len() == 4);
    assert("ls-files"@.len() == 8);
    assert("rev-parse"@.len() == 9);
    assert("status"@.len() == 6);
    assert("tag"@.len() == 3);
    assert("log"@[0] == 'l');
    assert("tag"@[0] == 't');
    reveal_strlit("--abbrev");
    assert("--abbrev"@.len() == 8 && "--abbrev"@[0] == '-' && "--abbrev"@[1] == '-'
        && "--abbrev"@[2] == 'a' && "--abbrev"@[3] == 'b' && "--abbrev"@[4] == 'b' && "--abbrev"@[5]
        == 'r' && "--abbrev"@[6] == 'e' && "--abbrev"@[7] == 'v');
    reveal_strlit("--all");
    assert("--all"@.len() == 5 && "--all"@[0] == '-' && "--all"@[1] == '-' && "--all"@[2] == 'a'
        && "--all"@[3] == 'l' && "--all"@[4] == 'l');
    reveal_strlit("--color");
    assert("--color"@.len() == 7 && "--color"@[0] == '-' && "--color"@[1] == '-' && "--color"@[2]
        == 'c' && "--color"@[3] == 'o' && "--color"@[4] == 'l' && "--color"@[5] == 'o'
        && "--color"@[6] == 'r');
    reveal_strlit("--column");
    assert("--column"@.len() == 8 && "--column"@[0] == '-' && "--column"@[1] == '-'
        && "--column"@[2] == 'c' && "--column"@[3] == 'o' && "--column"@[4] == 'l' && "--column"@[5]
        == 'u' && "--column"@[6] == 'm' && "--column"@[7] == 'n');
    reveal_strlit("--contains");
    assert("--contains"@.len() == 10 && "--contains"@[0] == '-' && "--contains"@[1] == '-'
        && "--contains"@[2] == 'c' && "--contains"@[3] == 'o' && "--contains"@[4] == 'n'
        && "--contains"@[5] == 't' && "--contains"@[6] == 'a' && "--contains"@[7] == 'i'
        && "--contains"@[8] == 'n' && "--contains"@[9] == 's');
    reveal_strlit("--format");
    assert("--format"@.len() == 8 && "--format"@[0] == '-' && "--format"@[1] == '-'
        && "--format"@[2] == 'f' && "--format"@[3] == 'o' && "--format"@[4] == 'r' && "--format"@[5]
        == 'm' && "--format"@[6] == 'a' && "--format"@[7] == 't');
    reveal_strlit("--help");
    assert("--help"@.len() == 6 && "--help"@[0] == '-' && "--help"@[1] == '-' && "--help"@[2] == 'h'
        && "--help"@[3] == 'e' && "--help"@[4] == 'l' && "--help"@[5] == 'p');
    reveal_strlit("--ignore-case");
    assert("--ignore-case"@.len() == 13 && "--ignore-case"@[0] == '-' && "--ignore-case"@[1] == '-'
        && "--ignore-case"@[2] == 'i' && "--ignore-case"@[3] == 'g' && "--ignore-case"@[4] == 'n'
        && "--ignore-case"@[5] == 'o' && "--ignore-case"@[6] == 'r' && "--ignore-case"@[7] == 'e'
        && "--ignore-case"@[8] == '-' && "--ignore-case"@[9] == 'c' && "--ignore-case"@[10] == 'a'
        && "--ignore-case"@[11] == 's' && "--ignore-case"@[12] == 'e');
    reveal_strlit("--list");
    assert("--list"@.len() == 6 && "--list"@[0] == '-' && "--list"@[1] == '-' && "--list"@[2] == 'l'
        && "--list"@[3] == 'i' && "--list"@[4] == 's' && "--list"@[5] == 't');
    reveal_strlit("--merged");
    assert("--merged"@.len() == 8 && "--merged"@[0] == '-' && "--merged"@[1] == '-'
        && "--merged"@[2] == 'm' && "--merged"@[3] == 'e' && "--merged"@[4] == 'r' && "--merged"@[5]
        == 'g' && "--merged"@[6] == 'e' && "--merged"@[7] == 'd');
    reveal_strlit("--no-abbrev");
    assert("--no-abbrev"@.len() == 11 && "--no-abbrev"@[0] == '-' && "--no-abbrev"@[1] == '-'
        && "--no-abbrev"@[2] == 'n' && "--no-abbrev"@[3] == 'o' && "--no-abbrev"@[4] == '-'
        && "--no-abbrev"@[5] == 'a' && "--no-abbrev"@[6] == 'b' && "--no-abbrev"@[7] == 'b'
        && "--no-abbrev"@[8] == 'r' && "--no-abbrev"@[9] == 'e' && "--no-abbrev"@[10] == 'v');
    reveal_strlit("--no-color");
    assert("--no-color"@.len() == 10 && "--no-color"@[0] == '-' && "--no-color"@[1] == '-'
        && "--no-color"@[2] == 'n' && "--no-color"@[3] == 'o' && "--no-color"@[4] == '-'
        && "--no-color"@[5] == 'c' && "--no-color"@[6] == 'o' && "--no-color"@[7] == 'l'
        && "--no-color"@[8] == 'o' && "--no-color"@[9] == 'r');
    reveal_strlit("--no-column");
    assert("--no-column"@.len() == 11 && "--no-column"@[0] == '-' && "--no-column"@[1] == '-'
        && "--no-column"@[2] == 'n' && "--no-column"@[3] == 'o' && "--no-column"@[4] == '-'
        && "--no-column"@[5] == 'c' && "--no-column"@[6] == 'o' && "--no-column"@[7] == 'l'
        && "--no-column"@[8] == 'u' && "--no-column"@[9] == 'm' && "--no-column"@[10] == 'n');
    reveal_strlit("--no-contains");
    assert("--no-contains"@.len() == 13 && "--no-contains"@[0] == '-' && "--no-contains"@[1] == '-'
        && "--no-contains"@[2] == 'n' && "--no-contains"@[3] == 'o' && "--no-contains"@[4] == '-'
        && "--no-contains"@[5] == 'c' && "--no-contains"@[6] == 'o' && "--no-contains"@[7] == 'n'
        && "--no-contains"@[8] == 't' && "--no-contains"@[9] == 'a' && "--no-contains"@[10] == 'i'
        && "--no-contains"@[11] == 'n' && "--no-contains"@[12] == 's');
    reveal_strlit("--no-merged");
    assert("--no-merged"@.len() == 11 && "--no-merged"@[0] == '-' && "--no-merged"@[1] == '-'
        && "--no-merged"@[2] == 'n' && "--no-merged"@[3] == 'o' && "--no-merged"@[4] == '-'
        && "--no-merged"@[5] == 'm' && "--no-merged"@[6] == 'e' && "--no-merged"@[7] == 'r'
        && "--no-merged"@[8] == 'g' && "--no-merged"@[9] == 'e' && "--no-merged"@[10] == 'd');
    reveal_strlit("--omit-empty");
    assert("--omit-empty"@.len() == 12 && "--omit-empty"@[0] == '-' && "--omit-empty"@[1] == '-'
        && "--omit-empty"@[2] == 'o' && "--omit-empty"@[3] == 'm' && "--omit-empty"@[4] == 'i'
        && "--omit-empty"@[5] == 't' && "--omit-empty"@[6] == '-' && "--omit-empty"@[7] == 'e'
        && "--omit-empty"@[8] == 'm' && "--omit-empty"@[9] == 'p' && "--omit-empty"@[10] == 't'
        && "--omit-empty"@[11] == 'y');
    reveal_strlit("--points-at");
    assert("--points-at"@.len() == 11 && "--points-at"@[0] == '-' && "--points-at"@[1] == '-'
        && "--points-at"@[2] == 'p' && "--points-at"@[3] == 'o' && "--points-at"@[4] == 'i'
        && "--points-at"@[5] == 'n' && "--points-at"@[6] == 't' && "--points-at"@[7] == 's'
        && "--points-at"@[8] == '-' && "--points-at"@[9] == 'a' && "--points-at"@[10] == 't');
    reveal_strlit("--quiet");
    assert("--quiet"@.len() == 7 && "--quiet"@[0] == '-' && "--quiet"@[1] == '-' && "--quiet"@[2]
        == 'q' && "--quiet"@[3] == 'u' && "--quiet"@[4] == 'i' && "--quiet"@[5] == 'e'
        && "--quiet"@[6] == 't');
    reveal_strlit("--remotes");
    assert("--remotes"@.len() == 9 && "--remotes"@[0] == '-' && "--remotes"@[1] == '-'
        && "--remotes"@[2] == 'r' && "--remotes"@[3] == 'e' && "--remotes"@[4] == 'm'
        && "--remotes"@[5] == 'o' && "--remotes"@[6] == 't' && "--remotes"@[7] == 'e'
        && "--remotes"@[8] == 's');
    reveal_strlit("--show-current");
    assert("--show-current"@.len() == 14 && "--show-current"@[0] == '-' && "--show-current"@[1]
        == '-' && "--show-current"@[2] == 's' && "--show-current"@[3] == 'h' && "--show-current"@[4]
        == 'o' && "--show-current"@[5] == 'w' && "--show-current"@[6] == '-' && "--show-current"@[7]
        == 'c' && "--show-current"@[8] == 'u' && "--show-current"@[9] == 'r'
        && "--show-current"@[10] == 'r' && "--show-current"@[11] == 'e' && "--show-current"@[12]
        == 'n' && "--show-current"@[13] == 't');
    reveal_strlit("--sort");
    assert("--sort"@.len() == 6 && "--sort"@[0] == '-' && "--sort"@[1] == '-' && "--sort"@[2] == 's'
        && "--sort"@[3] == 'o' && "--sort"@[4] == 'r' && "--sort"@[5] == 't');
    reveal_strlit("--verbose");
    assert("--verbose"@.len() == 9 && "--verbose"@[0] == '-' && "--verbose"@[1] == '-'
        && "--verbose"@[2] == 'v' && "--verbose"@[3] == 'e' && "--verbose"@[4] == 'r'
        && "--verbose"@[5] == 'b' && "--verbose"@[6] == 'o' && "--verbose"@[7] == 's'
        && "--verbose"@[8] == 'e');
    reveal_strlit("branch");
    reveal_strlit("tag");
    assert("branch"@[0] == 'b' && "tag"@[0] == 't');
    let flag = words[2];
    assert(!writes_output(words)) by {
        let writes = |t: Seq<char>| sets_flag(t, "-o"@) || sets_flag(t, "--output"@);
        reveal_strlit("--output");
        reveal_strlit("--output=");
        assert("--output"@[0] == '-' && "--output"@[3] == 'u' && "--output"@.len() == 8);
        assert("--output="@[0] == '-' && "--output="@[3] == 'u' && "--output="@.len() == 9);
        assert forall|i: int| 1 <= i < words.len() implies !writes(#[trigger] words[i]) by {
            law_output_flags(words[i]);
            if "--output="@.is_prefix_of(words[i]) {
                assert(words[i].subrange(0, 9)[0] == words[i][0]);
                assert(words[i].subrange(0, 9)[3] == words[i][3]);
            }
        }
    }
    assert(names_option(flag, flag)) by {
        assert(!flag.contains('=')) by {
            assert forall|k: int| 0 <= k < flag.len() implies flag[k] != '=' by {}
        }
        law_options_may_be_shortened(flag, flag.len() as int, Seq::empty());
        assert(flag.take(flag.len() as int) =~= flag);
    }
    let changes = |t: Seq<char>| changing_flag(t);
    let names = |t: Seq<char>| positional(t);
    assert forall|i: int| 2 <= i < words.len() implies !changes(#[trigger] words[i]) by {}
    assert forall|i: int| 2 <= i < words.len() implies !names(#[trigger] words[i]) by {}
}

proof fn lemma_flags_before(
    words: Seq<Seq<char>>,
    i: int,
    wants: spec_fn(Seq<char>) -> bool,
    leading: bool,
)
    requires
        1 <= i,
        forall|j: int|
            1 <= j < i ==> #[trigger] words[j] != "--"@ && !wants(words[j]) && (leading ==> is_flag(
                words[j],
            )),
    ensures
        role(words, i, wants, leading) == Role::Flag,
    decreases i,
{
    if i > 1 {
        lemma_flags_before(words, i - 1, wants, leading);
        assert(words[i - 1] != "--"@);
    }
}

proof fn lemma_operands_behind(
    words: Seq<Seq<char>>,
    k: int,
    i: int,
    wants: spec_fn(Seq<char>) -> bool,
    leading: bool,
)
    requires
        1 <= k <= i,
        role(words, k, wants, leading) == Role::Operand,
    ensures
        role(words, i, wants, leading) == Role::Operand,
    decreases i - k,
{
    if k < i {
        lemma_operands_behind(words, k, i - 1, wants, leading);
    }
}

proof fn lemma_marks_end_flags(words: Seq<Seq<char>>, i: int)
    requires
        1 <= i,
    ensures
        role(words, i, |t: Seq<char>| false, false) == Role::Flag <==> forall|j: int|
            1 <= j < i ==> #[trigger] words[j] != "--"@,
    decreases i,
{
    let wants = |t: Seq<char>| false;
    if i > 1 {
        lemma_marks_end_flags(words, i - 1);
        assert(role(words, i - 1, wants, false) != Role::Argument) by {
            lemma_nothing_wanted(words, i - 1);
        }
        if role(words, i, wants, false) == Role::Flag {
            assert(words[i - 1] != "--"@);
        }
    }
}

proof fn lemma_nothing_wanted(words: Seq<Seq<char>>, i: int)
    ensures
        role(words, i, |t: Seq<char>| false, false) != Role::Argument,
    decreases i,
{
    if i > 1 {
        lemma_nothing_wanted(words, i - 1);
    }
}

/// `rm` runs without asking if and only if no word is `--force`, `--recursive` or a cluster with
/// `r`, `R` or `f`, and none before the first `--` is a short form of those two.
pub proof fn law_rm_asks_where_it_forces(words: Seq<Seq<char>>)
    requires
        words.len() > 0,
        words[0] == "rm"@,
    ensures
        safe(words) <==> forall|i: int|
            1 <= i < words.len() ==> {
                &&& #[trigger] words[i] != "--force"@
                &&& words[i] != "--recursive"@
                &&& !cluster_has(words[i], 'r')
                &&& !cluster_has(words[i], 'R')
                &&& !cluster_has(words[i], 'f')
                &&& (forall|j: int| 1 <= j < i ==> #[trigger] words[j] != "--"@) ==> !(words[i].len()
                    > 2 && (words[i].is_prefix_of("--recursive"@) || words[i].is_prefix_of(
                    "--force"@,
                )))
            },
{
    lemma_commands_are_told_apart(words);
    let forces = |t: Seq<char>| rm_flag(t);
    let wants = |t: Seq<char>| false;
    let short = |t: Seq<char>| rm_short_form(t);
    if safe(words) {
        assert forall|i: int| 1 <= i < words.len() implies {
            &&& #[trigger] words[i] != "--force"@
            &&& words[i] != "--recursive"@
            &&& !cluster_has(words[i], 'r')
            &&& !cluster_has(words[i], 'R')
            &&& !cluster_has(words[i], 'f')
            &&& (forall|j: int| 1 <= j < i ==> #[trigger] words[j] != "--"@) ==> !(words[i].len() > 2
                && (words[i].is_prefix_of("--recursive"@) || words[i].is_prefix_of("--force"@)))
        } by {
            assert(!forces(words[i]));
            lemma_marks_end_flags(words, i);
            if role(words, i, wants, false) == Role::Flag {
                assert(!short(words[i]));
            }
        }
    } else {
        if any_word(words, 1, forces) {
            let i = choose|i: int| 1 <= i < words.len() && forces(#[trigger] words[i]);
            assert(rm_flag(words[i]));
        } else {
            let i = choose|i: int|
                1 <= i < words.len() && #[trigger] role(words, i, wants, false) == Role::Flag
                    && short(words[i]);
            lemma_marks_end_flags(words, i);
            assert(rm_short_form(words[i]));
        }
    }
}

/// `find` runs without asking if and only if no word makes it delete, execute or write.
pub proof fn law_find_asks_where_it_acts(words: Seq<Seq<char>>)
    requires
        words.len() > 0,
        words[0] == "find"@,
    ensures
        safe(words) <==> forall|i: int|
            1 <= i < words.len() ==> #[trigger] words[i] != "-delete"@ && words[i] != "-exec"@
                && words[i] != "-execdir"@ && words[i] != "-ok"@ && words[i] != "-okdir"@
                    && words[i]
                != "-fprint"@ && words[i] != "-fprint0"@ && words[i] != "-fprintf"@ && words[i]
                != "-fls"@,
{
    lemma_commands_are_told_apart(words);
    let acts = |t: Seq<char>| find_flag(t);
    if safe(words) {
        assert forall|i: int| 1 <= i < words.len() implies !find_flag(#[trigger] words[i]) by {
            assert(!acts(words[i]));
        }
    } else {
        let i = choose|i: int| 1 <= i < words.len() && acts(#[trigger] words[i]);
        assert(find_flag(words[i]));
    }
}

/// A shell or an interpreter runs without asking if and only if no word is a cluster with `c`.
pub proof fn law_interpreters_ask_for_inline_code(words: Seq<Seq<char>>)
    requires
        words.len() > 0,
        words[0] == "bash"@ || words[0] == "sh"@ || words[0] == "zsh"@ || words[0] == "python"@
            || words[0] == "python3"@ || (words[0] == "fish"@ && (words.len() == 1 || !(
        words[1].len() > 1 && words[1][0] == '-'))),
    ensures
        safe(words) <==> forall|i: int|
            1 <= i < words.len() ==> !cluster_has(#[trigger] words[i], 'c'),
{
    lemma_commands_are_told_apart(words);
    reveal_strlit("bash");
    reveal_strlit("fish");
    reveal_strlit("sh");
    reveal_strlit("zsh");
    reveal_strlit("python");
    reveal_strlit("python3");
    assert("bash"@[0] == 'b');
    assert("fish"@[0] == 'f');
    assert("sh"@.len() == 2);
    assert("fish"@.len() == 4);
    assert("zsh"@.len() == 3);
    assert("python"@.len() == 6);
    assert("python3"@.len() == 7);
    let inline = |t: Seq<char>| inline_code_flag(t);
    let wants = |t: Seq<char>| false;
    let named = |t: Seq<char>| names_option(t, "--command"@);
    if words[0] == "fish"@ && any_flag(words, wants, true, named) {
        let i = choose|i: int|
            1 <= i < words.len() && #[trigger] role(words, i, wants, true) == Role::Flag && named(
                words[i],
            );
        reveal_strlit("--command");
        assert("--command"@.len() == 9 && "--command"@[0] == '-' && "--command"@[1] == '-');
        lemma_options_have_two_dashes(words[i], "--command"@);
        assert(role(words, 1, wants, true) == Role::Flag);
        if i > 1 {
            assert(role(words, 2, wants, true) == Role::Operand);
            lemma_operands_behind(words, 2, i, wants, true);
        }
    }
    if safe(words) {
        assert forall|i: int| 1 <= i < words.len() implies !cluster_has(#[trigger] words[i], 'c') by {
            assert(!inline(words[i]));
        }
    } else {
        let i = choose|i: int| 1 <= i < words.len() && inline(#[trigger] words[i]);
        assert(cluster_has(words[i], 'c'));
    }
}

/// `fish` asks where its first word is `--command`, shortened or with a value.
pub proof fn law_fish_asks_for_commands(words: Seq<Seq<char>>, n: int, value: Seq<char>)
    requires
        words.len() > 1,
        words[0] == "fish"@,
        2 < n <= "--command"@.len(),
        words[1] == "--command"@.take(n) || words[1] == "--command"@.take(n).push('=') + value,
    ensures
        !safe(words),
{
    lemma_commands_are_told_apart(words);
    reveal_strlit("--command");
    assert("--command"@.len() == 9 && "--command"@[0] == '-' && "--command"@[1] == '-'
        && "--command"@[2] == 'c' && "--command"@[3] == 'o' && "--command"@[4] == 'm'
        && "--command"@[5] == 'm' && "--command"@[6] == 'a' && "--command"@[7] == 'n'
        && "--command"@[8] == 'd');
    let option = "--command"@;
    assert(!option.contains('=')) by {
        assert forall|k: int| 0 <= k < option.len() implies option[k] != '=' by {}
    }
    law_options_may_be_shortened(option, n, value);
    let wants = |t: Seq<char>| false;
    let named = |t: Seq<char>| names_option(t, "--command"@);
    assert(role(words, 1, wants, true) == Role::Flag);
    assert(named(words[1]));
}

/// `sed` asks where a word begins with `-i` or is `--in-place`, wherever it stands; where its first
/// word is a cluster in which `i` follows only letters without an argument; and where that word is
/// `--in-place`, shortened or with a value.
pub proof fn law_sed_asks_where_it_edits(
    words: Seq<Seq<char>>,
    i: int,
    k: int,
    n: int,
    value: Seq<char>,
)
    requires
        1 <= i < words.len(),
        words[0] == "sed"@,
    ensures
        words[i].len() > 1 && words[i][0] == '-' && words[i][1] == 'i' ==> !safe(words),
        words[i] == "--in-place"@ ==> !safe(words),
        words[1].len() > 1 && words[1][0] == '-' && words[1][1] != '-' && 1 <= k < words[1].len()
            && words[1][k] == 'i' && (forall|j: int|
            1 <= j < k ==> (#[trigger] words[1][j] == 'n' || words[1][j] == 'r' || words[1][j]
                == 'E'
                || words[1][j] == 's' || words[1][j] == 'u' || words[1][j]
                    == 'z')) ==> !safe(words),
        2 < n <= "--in-place"@.len() && (words[1] == "--in-place"@.take(n) || words[1]
            == "--in-place"@.take(n).push('=') + value) ==> !safe(words),
{
    lemma_commands_are_told_apart(words);
    reveal_strlit("--in-place");
    assert("--in-place"@.len() == 10 && "--in-place"@[0] == '-' && "--in-place"@[1] == '-'
        && "--in-place"@[2] == 'i' && "--in-place"@[3] == 'n' && "--in-place"@[4] == '-'
        && "--in-place"@[5] == 'p' && "--in-place"@[6] == 'l' && "--in-place"@[7] == 'a'
        && "--in-place"@[8] == 'c' && "--in-place"@[9] == 'e');
    reveal_strlit("-i");
    assert("-i"@.len() == 2 && "-i"@[0] == '-' && "-i"@[1] == 'i');
    let edits = |t: Seq<char>| sed_flag(t);
    let wants = |t: Seq<char>| sed_wants(t);
    let other = |t: Seq<char>| sed_other_form(t);
    let takes = |c: char| sed_takes(c);
    assert(role(words, 1, wants, false) == Role::Flag);
    if words[i].len() > 1 && words[i][0] == '-' && words[i][1] == 'i' {
        assert(words[i].subrange(0, 2) =~= "-i"@);
        assert(edits(words[i]));
    }
    if words[i] == "--in-place"@ {
        assert(edits(words[i]));
    }
    if words[1].len() > 1 && words[1][0] == '-' && words[1][1] != '-' && 1 <= k < words[1].len()
        && words[1][k] == 'i' && (forall|j: int|
        1 <= j < k ==> (#[trigger] words[1][j] == 'n' || words[1][j] == 'r' || words[1][j] == 'E'
            || words[1][j] == 's' || words[1][j] == 'u' || words[1][j] == 'z')) {
        assert forall|j: int| 1 <= j < k implies !takes(#[trigger] words[1][j]) by {}
        assert(cluster_gives(words[1], 'i', takes));
        assert(other(words[1]));
    }
    if 2 < n <= "--in-place"@.len() && (words[1] == "--in-place"@.take(n) || words[1]
        == "--in-place"@.take(n).push('=') + value) {
        let option = "--in-place"@;
        assert(!option.contains('=')) by {
            assert forall|j: int| 0 <= j < option.len() implies option[j] != '=' by {}
        }
        law_options_may_be_shortened(option, n, value);
        assert(other(words[1]));
    }
}

/// `sed` runs as a filter: with nothing but letters without an argument in its flags.
pub proof fn law_sed_runs_as_a_filter(words: Seq<Seq<char>>)
    requires
        words.len() > 0,
        words[0] == "sed"@,
        forall|i: int, k: int|
            1 <= i < words.len() && words[i].len() > 0 && words[i][0] == '-' && 1 <= k
                < words[i].len() ==> (#[trigger] words[i][k] == 'n' || words[i][k] == 'r'
                || words[i][k] == 'E' || words[i][k] == 's' || words[i][k] == 'u' || words[i][k]
                == 'z'),
    ensures
        safe(words),
{
    lemma_commands_are_told_apart(words);
    reveal_strlit("--in-place");
    assert("--in-place"@.len() == 10 && "--in-place"@[0] == '-' && "--in-place"@[1] == '-'
        && "--in-place"@[2] == 'i' && "--in-place"@[3] == 'n' && "--in-place"@[4] == '-'
        && "--in-place"@[5] == 'p' && "--in-place"@[6] == 'l' && "--in-place"@[7] == 'a'
        && "--in-place"@[8] == 'c' && "--in-place"@[9] == 'e');
    reveal_strlit("-i");
    assert("-i"@.len() == 2 && "-i"@[0] == '-' && "-i"@[1] == 'i');
    let edits = |t: Seq<char>| sed_flag(t);
    let other = |t: Seq<char>| sed_other_form(t);
    assert forall|i: int| 1 <= i < words.len() implies !edits(#[trigger] words[i])
        && !other(words[i]) by {
        let t = words[i];
        if "-i"@.is_prefix_of(t) {
            assert(t.subrange(0, 2)[0] == t[0] && t.subrange(0, 2)[1] == t[1]);
            assert(words[i][1] == 'n' || words[i][1] != 'i');
        }
        if t == "--in-place"@ {
            assert(words[i][1] == 'n' || words[i][1] != '-');
        }
        if names_option(t, "--in-place"@) {
            lemma_options_have_two_dashes(t, "--in-place"@);
            assert(words[i][1] == 'n' || words[i][1] != '-');
        }
    }
}

/// The word behind a flag of `sed` with an argument is that argument, and no flag: it makes `sed`
/// ask only where it would anywhere.
pub proof fn law_sed_flags_take_the_next_word(words: Seq<Seq<char>>)
    requires
        words.len() == 3,
        words[0] == "sed"@,
        words[1] == "-e"@ || words[1] == "-f"@ || words[1] == "-l"@ || words[1] == "--expression"@
            || words[1] == "--file"@ || words[1] == "--line-length"@,
    ensures
        safe(words) <==> !(words[2].len() > 1 && words[2][0] == '-' && words[2][1] == 'i')
            && words[2] != "--in-place"@,
{
    lemma_commands_are_told_apart(words);
    reveal_strlit("--in-place");
    assert("--in-place"@.len() == 10 && "--in-place"@[0] == '-' && "--in-place"@[1] == '-'
        && "--in-place"@[2] == 'i' && "--in-place"@[3] == 'n' && "--in-place"@[4] == '-'
        && "--in-place"@[5] == 'p' && "--in-place"@[6] == 'l' && "--in-place"@[7] == 'a'
        && "--in-place"@[8] == 'c' && "--in-place"@[9] == 'e');
    reveal_strlit("-i");
    assert("-i"@.len() == 2 && "-i"@[0] == '-' && "-i"@[1] == 'i');
    reveal_strlit("-e");
    assert("-e"@.len() == 2 && "-e"@[0] == '-' && "-e"@[1] == 'e');
    reveal_strlit("-f");
    assert("-f"@.len() == 2 && "-f"@[0] == '-' && "-f"@[1] == 'f');
    reveal_strlit("-l");
    assert("-l"@.len() == 2 && "-l"@[0] == '-' && "-l"@[1] == 'l');
    reveal_strlit("--expression");
    assert("--expression"@.len() == 12 && "--expression"@[0] == '-' && "--expression"@[1] == '-'
        && "--expression"@[2] == 'e' && "--expression"@[3] == 'x' && "--expression"@[4] == 'p'
        && "--expression"@[5] == 'r' && "--expression"@[6] == 'e' && "--expression"@[7] == 's'
        && "--expression"@[8] == 's' && "--expression"@[9] == 'i' && "--expression"@[10] == 'o'
        && "--expression"@[11] == 'n');
    reveal_strlit("--file");
    assert("--file"@.len() == 6 && "--file"@[0] == '-' && "--file"@[1] == '-' && "--file"@[2] == 'f'
        && "--file"@[3] == 'i' && "--file"@[4] == 'l' && "--file"@[5] == 'e');
    reveal_strlit("--line-length");
    assert("--line-length"@.len() == 13 && "--line-length"@[0] == '-' && "--line-length"@[1] == '-'
        && "--line-length"@[2] == 'l' && "--line-length"@[3] == 'i' && "--line-length"@[4] == 'n'
        && "--line-length"@[5] == 'e' && "--line-length"@[6] == '-' && "--line-length"@[7] == 'l'
        && "--line-length"@[8] == 'e' && "--line-length"@[9] == 'n' && "--line-length"@[10] == 'g'
        && "--line-length"@[11] == 't' && "--line-length"@[12] == 'h');
    reveal_strlit("--");
    assert("--"@.len() == 2 && "--"@[0] == '-' && "--"@[1] == '-');
    let edits = |t: Seq<char>| sed_flag(t);
    let wants = |t: Seq<char>| sed_wants(t);
    let other = |t: Seq<char>| sed_other_form(t);
    assert(role(words, 1, wants, false) == Role::Flag);
    let t = words[1];
    if t[1] == '-' {
        assert(t.is_prefix_of(t)) by {
            assert(t.subrange(0, t.len() as int) =~= t);
        }
    } else {
        assert(t.last() == t[1]);
        assert(cluster_wants(t, |c: char| sed_wants_for(c), |c: char| sed_takes(c)));
    }
    assert(wants(words[1]));
    assert(role(words, 2, wants, false) == Role::Argument);
    assert(!other(words[1])) by {
        if names_option(t, "--in-place"@) {
            lemma_options_have_two_dashes(t, "--in-place"@);
            lemma_position_at(t, '=', t.len());
            assert(option_name(t) =~= t);
            let option = "--in-place"@;
            assert(option.subrange(0, t.len() as int)[2] == option[2]);
            assert(option.subrange(0, t.len() as int)[3] == option[3]);
        }
    }
    assert(!edits(words[1])) by {
        if "-i"@.is_prefix_of(t) {
            assert(t.subrange(0, 2)[1] == t[1]);
        }
    }
    let u = words[2];
    if u.len() > 1 && u[0] == '-' && u[1] == 'i' {
        assert(u.subrange(0, 2) =~= "-i"@);
        assert(edits(words[2]));
    }
    if u == "--in-place"@ {
        assert(edits(words[2]));
    }
    if "-i"@.is_prefix_of(u) {
        assert(u.subrange(0, 2)[0] == u[0] && u.subrange(0, 2)[1] == u[1]);
    }
    if !safe(words) {
        if any_word(words, 1, edits) {
            let i = choose|i: int| 1 <= i < words.len() && edits(#[trigger] words[i]);
            assert(i == 1 || i == 2);
        } else {
            let i = choose|i: int|
                1 <= i < words.len() && #[trigger] role(words, i, wants, false) == Role::Flag
                    && other(
                    words[i],
                );
            assert(i == 1 || i == 2);
        }
    }
}

proof fn lemma_output_words(words: Seq<Seq<char>>)
    ensures
        writes_output(words) <==> exists|i: int|
            1 <= i < words.len() && ((#[trigger] words[i].len() > 1 && words[i][0] == '-'
                && words[i][1] == 'o') || words[i] == "--output"@ || "--output="@.is_prefix_of(
                words[i],
            )),
{
    let writes = |t: Seq<char>| sets_flag(t, "-o"@) || sets_flag(t, "--output"@);
    assert forall|i: int| 1 <= i < words.len() implies (writes(#[trigger] words[i]) <==> ((words[i].len() > 1
        && words[i][0] == '-' && words[i][1] == 'o') || words[i] == "--output"@
        || "--output="@.is_prefix_of(words[i]))) by {
        law_output_flags(words[i]);
    }
    if writes_output(words) {
        let i = choose|i: int| 1 <= i < words.len() && writes(#[trigger] words[i]);
        assert(words[i].len() >= 0);
    }
    if exists|i: int|
        1 <= i < words.len() && ((#[trigger] words[i].len() > 1 && words[i][0] == '-' && words[i][1]
            == 'o') || words[i] == "--output"@ || "--output="@.is_prefix_of(words[i])) {
        let i = choose|i: int|
            1 <= i < words.len() && ((#[trigger] words[i].len() > 1 && words[i][0] == '-'
                && words[i][1] == 'o') || words[i] == "--output"@ || "--output="@.is_prefix_of(
                words[i],
            ));
        assert(writes(words[i]));
    }
}

/// `sort` and `tree` ask where a word sends the output to a file; `sort` also where its first word
/// is a cluster in which `o` follows no letter with an argument, or `--output`, shortened or with a
/// value; and `tree` where its first word is any cluster with `o`.
pub proof fn law_sort_and_tree_ask_where_they_write(
    words: Seq<Seq<char>>,
    i: int,
    k: int,
    n: int,
    value: Seq<char>,
)
    requires
        1 <= i < words.len(),
        words[0] == "sort"@ || words[0] == "tree"@,
    ensures
        (words[i].len() > 1 && words[i][0] == '-' && words[i][1] == 'o') || words[i] == "--output"@
            || "--output="@.is_prefix_of(words[i]) ==> !safe(words),
        words[0] == "sort"@ && words[1].len() > 1 && words[1][0] == '-' && words[1][1] != '-' && 1
            <= k < words[1].len() && words[1][k] == 'o' && (forall|j: int|
            1 <= j < k ==> #[trigger] words[1][j] != 'k' && words[1][j] != 'o' && words[1][j] != 'S'
                && words[1][j] != 't' && words[1][j] != 'T') ==> !safe(words),
        words[0] == "sort"@ && 2 < n <= "--output"@.len() && (words[1] == "--output"@.take(n)
            || words[1] == "--output"@.take(n).push('=') + value) ==> !safe(words),
        words[0] == "tree"@ && cluster_has(words[1], 'o') ==> !safe(words),
{
    lemma_commands_are_told_apart(words);
    lemma_output_words(words);
    assert(words[i].len() >= 0);
    reveal_strlit("--output");
    assert("--output"@.len() == 8 && "--output"@[0] == '-' && "--output"@[1] == '-'
        && "--output"@[2] == 'o' && "--output"@[3] == 'u' && "--output"@[4] == 't' && "--output"@[5]
        == 'p' && "--output"@[6] == 'u' && "--output"@[7] == 't');
    reveal_strlit("sort");
    reveal_strlit("tree");
    assert("sort"@[0] == 's');
    assert("tree"@[0] == 't');
    let wants = |t: Seq<char>| sort_wants(t);
    let other = |t: Seq<char>| sort_other_form(t);
    let takes = |c: char| sort_takes(c);
    assert(role(words, 1, wants, false) == Role::Flag);
    if words[0] == "sort"@ && words[1].len() > 1 && words[1][0] == '-' && words[1][1] != '-'
        && 1 <= k
        < words[1].len() && words[1][k] == 'o' && (forall|j: int|
        1 <= j < k ==> #[trigger] words[1][j] != 'k' && words[1][j] != 'o' && words[1][j] != 'S'
            && words[1][j] != 't' && words[1][j] != 'T') {
        assert forall|j: int| 1 <= j < k implies !takes(#[trigger] words[1][j]) by {}
        assert(cluster_gives(words[1], 'o', takes));
        assert(other(words[1]));
    }
    if words[0] == "sort"@ && 2 < n <= "--output"@.len() && (words[1] == "--output"@.take(n)
        || words[1] == "--output"@.take(n).push('=') + value) {
        let option = "--output"@;
        assert(!option.contains('=')) by {
            assert forall|j: int| 0 <= j < option.len() implies option[j] != '=' by {}
        }
        law_options_may_be_shortened(option, n, value);
        assert(other(words[1]));
    }
    let tree_wanting = |t: Seq<char>| tree_wants(t);
    let lettered = |t: Seq<char>| cluster_has(t, 'o');
    if words[0] == "tree"@ && cluster_has(words[1], 'o') {
        assert(role(words, 1, tree_wanting, false) == Role::Flag);
        assert(lettered(words[1]));
    }
}

/// `sort` and `tree` run where their flags are single letters and none of them is `o`.
pub proof fn law_sort_and_tree_run_as_filters(words: Seq<Seq<char>>)
    requires
        words.len() > 0,
        words[0] == "sort"@ || words[0] == "tree"@,
        forall|i: int, k: int|
            1 <= i < words.len() && words[i].len() > 0 && words[i][0] == '-' && 1 <= k
                < words[i].len() ==> #[trigger] words[i][k] != 'o' && words[i][k] != '-',
    ensures
        safe(words),
{
    lemma_commands_are_told_apart(words);
    lemma_output_words(words);
    reveal_strlit("--output");
    assert("--output"@.len() == 8 && "--output"@[0] == '-' && "--output"@[1] == '-'
        && "--output"@[2] == 'o' && "--output"@[3] == 'u' && "--output"@[4] == 't' && "--output"@[5]
        == 'p' && "--output"@[6] == 'u' && "--output"@[7] == 't');
    reveal_strlit("--output=");
    assert("--output="@.len() == 9 && "--output="@[0] == '-' && "--output="@[1] == '-'
        && "--output="@[2] == 'o' && "--output="@[3] == 'u' && "--output="@[4] == 't'
        && "--output="@[5] == 'p' && "--output="@[6] == 'u' && "--output="@[7] == 't'
        && "--output="@[8] == '=');
    reveal_strlit("sort");
    reveal_strlit("tree");
    assert("sort"@[0] == 's');
    assert("tree"@[0] == 't');
    let other = |t: Seq<char>| sort_other_form(t);
    let lettered = |t: Seq<char>| cluster_has(t, 'o');
    assert forall|i: int| 1 <= i < words.len() implies !other(#[trigger] words[i]) && !lettered(
        words[i],
    ) && !((words[i].len() > 1 && words[i][0] == '-' && words[i][1] == 'o') || words[i]
        == "--output"@ || "--output="@.is_prefix_of(words[i])) by {
        let t = words[i];
        if t.len() > 1 && t[0] == '-' {
            assert(words[i][1] != 'o' && words[i][1] != '-');
        }
        if "--output="@.is_prefix_of(t) {
            assert(t.subrange(0, 9)[0] == t[0] && t.subrange(0, 9)[1] == t[1]);
        }
        if names_option(t, "--output"@) {
            lemma_options_have_two_dashes(t, "--output"@);
        }
        law_clusters_hold_letters(t, 'o');
    }
}

/// The word behind a flag of `sort` or `tree` with an argument is that argument, and no flag: it
/// makes them ask only where it would anywhere.
pub proof fn law_sort_and_tree_flags_take_the_next_word(words: Seq<Seq<char>>)
    requires
        words.len() == 3,
        (words[0] == "sort"@ && (words[1] == "-k"@ || words[1] == "-S"@ || words[1] == "-t"@
            || words[1] == "-T"@ || words[1] == "--batch-size"@ || words[1] == "--buffer-size"@
            || words[1] == "--compress-program"@ || words[1] == "--field-separator"@ || words[1]
            == "--files0-from"@ || words[1] == "--key"@ || words[1] == "--parallel"@ || words[1]
            == "--random-source"@ || words[1] == "--sort"@ || words[1] == "--temporary-directory"@))
            || (words[0] == "tree"@ && (words[1] == "-H"@ || words[1] == "-I"@
            || words[1] == "-L"@ || words[1] == "-P"@ || words[1] == "-T"@)),
    ensures
        safe(words) <==> !((words[2].len() > 1 && words[2][0] == '-' && words[2][1] == 'o')
            || words[2] == "--output"@ || "--output="@.is_prefix_of(words[2])),
{
    lemma_commands_are_told_apart(words);
    lemma_output_words(words);
    reveal_strlit("-k");
    assert("-k"@.len() == 2 && "-k"@[0] == '-' && "-k"@[1] == 'k');
    reveal_strlit("-S");
    assert("-S"@.len() == 2 && "-S"@[0] == '-' && "-S"@[1] == 'S');
    reveal_strlit("-t");
    assert("-t"@.len() == 2 && "-t"@[0] == '-' && "-t"@[1] == 't');
    reveal_strlit("-T");
    assert("-T"@.len() == 2 && "-T"@[0] == '-' && "-T"@[1] == 'T');
    reveal_strlit("--batch-size");
    assert("--batch-size"@.len() == 12 && "--batch-size"@[0] == '-' && "--batch-size"@[1] == '-'
        && "--batch-size"@[2] == 'b' && "--batch-size"@[3] == 'a' && "--batch-size"@[4] == 't'
        && "--batch-size"@[5] == 'c' && "--batch-size"@[6] == 'h' && "--batch-size"@[7] == '-'
        && "--batch-size"@[8] == 's' && "--batch-size"@[9] == 'i' && "--batch-size"@[10] == 'z'
        && "--batch-size"@[11] == 'e');
    reveal_strlit("--buffer-size");
    assert("--buffer-size"@.len() == 13 && "--buffer-size"@[0] == '-' && "--buffer-size"@[1] == '-'
        && "--buffer-size"@[2] == 'b' && "--buffer-size"@[3] == 'u' && "--buffer-size"@[4] == 'f'
        && "--buffer-size"@[5] == 'f' && "--buffer-size"@[6] == 'e' && "--buffer-size"@[7] == 'r'
        && "--buffer-size"@[8] == '-' && "--buffer-size"@[9] == 's' && "--buffer-size"@[10] == 'i'
        && "--buffer-size"@[11] == 'z' && "--buffer-size"@[12] == 'e');
    reveal_strlit("--compress-program");
    assert("--compress-program"@.len() == 18 && "--compress-program"@[0] == '-'
        && "--compress-program"@[1] == '-' && "--compress-program"@[2] == 'c'
        && "--compress-program"@[3] == 'o' && "--compress-program"@[4] == 'm'
        && "--compress-program"@[5] == 'p' && "--compress-program"@[6] == 'r'
        && "--compress-program"@[7] == 'e' && "--compress-program"@[8] == 's'
        && "--compress-program"@[9] == 's' && "--compress-program"@[10] == '-'
        && "--compress-program"@[11] == 'p' && "--compress-program"@[12] == 'r'
        && "--compress-program"@[13] == 'o' && "--compress-program"@[14] == 'g'
        && "--compress-program"@[15] == 'r' && "--compress-program"@[16] == 'a'
        && "--compress-program"@[17] == 'm');
    reveal_strlit("--field-separator");
    assert("--field-separator"@.len() == 17 && "--field-separator"@[0] == '-'
        && "--field-separator"@[1] == '-' && "--field-separator"@[2] == 'f'
        && "--field-separator"@[3] == 'i' && "--field-separator"@[4] == 'e'
        && "--field-separator"@[5] == 'l' && "--field-separator"@[6] == 'd'
        && "--field-separator"@[7] == '-' && "--field-separator"@[8] == 's'
        && "--field-separator"@[9] == 'e' && "--field-separator"@[10] == 'p'
        && "--field-separator"@[11] == 'a' && "--field-separator"@[12] == 'r'
        && "--field-separator"@[13] == 'a' && "--field-separator"@[14] == 't'
        && "--field-separator"@[15] == 'o' && "--field-separator"@[16] == 'r');
    reveal_strlit("--files0-from");
    assert("--files0-from"@.len() == 13 && "--files0-from"@[0] == '-' && "--files0-from"@[1] == '-'
        && "--files0-from"@[2] == 'f' && "--files0-from"@[3] == 'i' && "--files0-from"@[4] == 'l'
        && "--files0-from"@[5] == 'e' && "--files0-from"@[6] == 's' && "--files0-from"@[7] == '0'
        && "--files0-from"@[8] == '-' && "--files0-from"@[9] == 'f' && "--files0-from"@[10] == 'r'
        && "--files0-from"@[11] == 'o' && "--files0-from"@[12] == 'm');
    reveal_strlit("--key");
    assert("--key"@.len() == 5 && "--key"@[0] == '-' && "--key"@[1] == '-' && "--key"@[2] == 'k'
        && "--key"@[3] == 'e' && "--key"@[4] == 'y');
    reveal_strlit("--parallel");
    assert("--parallel"@.len() == 10 && "--parallel"@[0] == '-' && "--parallel"@[1] == '-'
        && "--parallel"@[2] == 'p' && "--parallel"@[3] == 'a' && "--parallel"@[4] == 'r'
        && "--parallel"@[5] == 'a' && "--parallel"@[6] == 'l' && "--parallel"@[7] == 'l'
        && "--parallel"@[8] == 'e' && "--parallel"@[9] == 'l');
    reveal_strlit("--random-source");
    assert("--random-source"@.len() == 15 && "--random-source"@[0] == '-' && "--random-source"@[1]
        == '-' && "--random-source"@[2] == 'r' && "--random-source"@[3] == 'a'
        && "--random-source"@[4] == 'n' && "--random-source"@[5] == 'd' && "--random-source"@[6]
        == 'o' && "--random-source"@[7] == 'm' && "--random-source"@[8] == '-'
        && "--random-source"@[9] == 's' && "--random-source"@[10] == 'o' && "--random-source"@[11]
        == 'u' && "--random-source"@[12] == 'r' && "--random-source"@[13] == 'c'
        && "--random-source"@[14] == 'e');
    reveal_strlit("--sort");
    assert("--sort"@.len() == 6 && "--sort"@[0] == '-' && "--sort"@[1] == '-' && "--sort"@[2] == 's'
        && "--sort"@[3] == 'o' && "--sort"@[4] == 'r' && "--sort"@[5] == 't');
    reveal_strlit("--temporary-directory");
    assert("--temporary-directory"@.len() == 21 && "--temporary-directory"@[0] == '-'
        && "--temporary-directory"@[1] == '-' && "--temporary-directory"@[2] == 't'
        && "--temporary-directory"@[3] == 'e' && "--temporary-directory"@[4] == 'm'
        && "--temporary-directory"@[5] == 'p' && "--temporary-directory"@[6] == 'o'
        && "--temporary-directory"@[7] == 'r' && "--temporary-directory"@[8] == 'a'
        && "--temporary-directory"@[9] == 'r' && "--temporary-directory"@[10] == 'y'
        && "--temporary-directory"@[11] == '-' && "--temporary-directory"@[12] == 'd'
        && "--temporary-directory"@[13] == 'i' && "--temporary-directory"@[14] == 'r'
        && "--temporary-directory"@[15] == 'e' && "--temporary-directory"@[16] == 'c'
        && "--temporary-directory"@[17] == 't' && "--temporary-directory"@[18] == 'o'
        && "--temporary-directory"@[19] == 'r' && "--temporary-directory"@[20] == 'y');
    reveal_strlit("-H");
    assert("-H"@.len() == 2 && "-H"@[0] == '-' && "-H"@[1] == 'H');
    reveal_strlit("-I");
    assert("-I"@.len() == 2 && "-I"@[0] == '-' && "-I"@[1] == 'I');
    reveal_strlit("-L");
    assert("-L"@.len() == 2 && "-L"@[0] == '-' && "-L"@[1] == 'L');
    reveal_strlit("-P");
    assert("-P"@.len() == 2 && "-P"@[0] == '-' && "-P"@[1] == 'P');
    reveal_strlit("--output");
    assert("--output"@.len() == 8 && "--output"@[0] == '-' && "--output"@[1] == '-'
        && "--output"@[2] == 'o' && "--output"@[3] == 'u' && "--output"@[4] == 't' && "--output"@[5]
        == 'p' && "--output"@[6] == 'u' && "--output"@[7] == 't');
    reveal_strlit("--output=");
    assert("--output="@.len() == 9 && "--output="@[0] == '-' && "--output="@[1] == '-'
        && "--output="@[2] == 'o' && "--output="@[3] == 'u' && "--output="@[4] == 't'
        && "--output="@[5] == 'p' && "--output="@[6] == 'u' && "--output="@[7] == 't'
        && "--output="@[8] == '=');
    reveal_strlit("--");
    assert("--"@.len() == 2 && "--"@[0] == '-' && "--"@[1] == '-');
    reveal_strlit("sort");
    reveal_strlit("tree");
    assert("sort"@[0] == 's');
    assert("tree"@[0] == 't');
    let t = words[1];
    assert(words[1].len() >= 0 && words[2].len() >= 0);
    assert(!("--output="@.is_prefix_of(t))) by {
        if "--output="@.is_prefix_of(t) {
            assert(t.subrange(0, 9)[2] == t[2] && t.subrange(0, 9)[1] == t[1]);
        }
    }
    assert(t.is_prefix_of(t)) by {
        assert(t.subrange(0, t.len() as int) =~= t);
    }
    if words[0] == "sort"@ {
        let wants = |t: Seq<char>| sort_wants(t);
        let other = |t: Seq<char>| sort_other_form(t);
        assert(role(words, 1, wants, false) == Role::Flag);
        if t[1] != '-' {
            assert(t.last() == t[1]);
            assert(cluster_wants(t, |c: char| sort_takes(c), |c: char| sort_takes(c)));
        }
        assert(wants(words[1]));
        assert(role(words, 2, wants, false) == Role::Argument);
        assert(!other(words[1])) by {
            if names_option(t, "--output"@) {
                lemma_options_have_two_dashes(t, "--output"@);
                assert forall|j: int| 0 <= j < t.len() implies t[j] != '=' by {}
                lemma_position_at(t, '=', t.len());
                assert(option_name(t) =~= t);
                let option = "--output"@;
                assert(option.subrange(0, t.len() as int)[2] == option[2]);
            }
        }
        if any_flag(words, wants, false, other) {
            let i = choose|i: int|
                1 <= i < words.len() && #[trigger] role(words, i, wants, false) == Role::Flag
                    && other(
                    words[i],
                );
            assert(i == 1 || i == 2);
        }
    } else {
        let wants = |t: Seq<char>| tree_wants(t);
        let lettered = |t: Seq<char>| cluster_has(t, 'o');
        assert(role(words, 1, wants, false) == Role::Flag);
        law_clusters_hold_letters(t, 'H');
        law_clusters_hold_letters(t, 'I');
        law_clusters_hold_letters(t, 'L');
        law_clusters_hold_letters(t, 'P');
        law_clusters_hold_letters(t, 'T');
        law_clusters_hold_letters(t, 'o');
        assert(t[1] == 'H' || t[1] == 'I' || t[1] == 'L' || t[1] == 'P' || t[1] == 'T');
        assert(wants(words[1]));
        assert(role(words, 2, wants, false) == Role::Argument);
        assert(!lettered(words[1]));
        if any_flag(words, wants, false, lettered) {
            let i = choose|i: int|
                1 <= i < words.len() && #[trigger] role(words, i, wants, false) == Role::Flag
                    && lettered(words[i]);
            assert(i == 1 || i == 2);
        }
    }
}

/// `perl` runs without asking only where a word is the flag that checks the syntax of a script;
/// where its first word is no flag, that is the script, and it asks.
pub proof fn law_perl_runs_only_to_check(words: Seq<Seq<char>>)
    requires
        words.len() > 0,
        words[0] == "perl"@,
    ensures
        safe(words) ==> exists|i: int| 1 <= i < words.len() && #[trigger] words[i] == "-c"@,
        words.len() > 1 && !(words[1].len() > 1 && words[1][0] == '-') ==> !safe(words),
        words.len() == 1 ==> !safe(words),
{
    lemma_commands_are_told_apart(words);
    reveal_strlit("-c");
    assert("-c"@.len() == 2 && "-c"@[0] == '-' && "-c"@[1] == 'c');
    reveal_strlit("--");
    assert("--"@.len() == 2 && "--"@[0] == '-' && "--"@[1] == '-');
    let wants = |t: Seq<char>| perl_wants(t);
    let checks = |t: Seq<char>| t == "-c"@;
    let script = |t: Seq<char>| perl_script_flag(t);
    assert(role(words, 1, wants, true) == Role::Flag);
    if safe(words) {
        let i = choose|i: int|
            1 <= i < words.len() && #[trigger] role(words, i, wants, true) == Role::Flag && checks(
                words[i],
            );
        assert(words[i] == "-c"@);
        if !(words[1].len() > 1 && words[1][0] == '-') && i > 1 {
            assert(role(words, 2, wants, true) == Role::Operand);
            lemma_operands_behind(words, 2, i, wants, true);
        }
    }
}

/// `perl` runs where its first word checks the syntax and the next one is the script, whatever
/// stands behind that.
pub proof fn law_perl_checks_scripts(words: Seq<Seq<char>>)
    requires
        words.len() > 2,
        words[0] == "perl"@,
        words[1] == "-c"@,
        !(words[2].len() > 1 && words[2][0] == '-'),
    ensures
        safe(words),
{
    lemma_commands_are_told_apart(words);
    reveal_strlit("-c");
    assert("-c"@.len() == 2 && "-c"@[0] == '-' && "-c"@[1] == 'c');
    reveal_strlit("--");
    assert("--"@.len() == 2 && "--"@[0] == '-' && "--"@[1] == '-');
    let wants = |t: Seq<char>| perl_wants(t);
    let checks = |t: Seq<char>| t == "-c"@;
    let script = |t: Seq<char>| perl_script_flag(t);
    assert(role(words, 1, wants, true) == Role::Flag);
    assert(!script("-c"@) && !wants("-c"@)) by {
        assert("-c"@.last() == 'c');
    }
    assert(checks(words[1]));
    assert(any_flag(words, wants, true, checks));
    assert(role(words, 2, wants, true) == Role::Flag);
    assert(!script(words[2]));
    if any_flag(words, wants, true, script) {
        let i = choose|i: int|
            1 <= i < words.len() && #[trigger] role(words, i, wants, true) == Role::Flag && script(
                words[i],
            );
        if i > 2 {
            assert(role(words, 3, wants, true) == Role::Operand);
            lemma_operands_behind(words, 3, i, wants, true);
        }
        assert(i == 1 || i == 2);
    }
}

/// `perl` asks where its first word, or the one behind the flag that checks the syntax, is a
/// cluster in which the letter for inline code follows no letter with an argument.
pub proof fn law_perl_asks_for_inline_code(words: Seq<Seq<char>>, i: int, k: int,)
    requires
        words[0] == "perl"@,
        1 <= i <= 2,
        i < words.len(),
        i == 2 ==> words[1] == "-c"@,
        words[i].len() > 1,
        words[i][0] == '-',
        words[i][1] != '-',
        1 <= k < words[i].len(),
        words[i][k] == 'e' || words[i][k] == 'E',
        forall|j: int|
            1 <= j < k ==> #[trigger] words[i][j] != 'C' && words[i][j] != 'D' && words[i][j] != 'F'
                && words[i][j] != 'I' && words[i][j] != 'M' && words[i][j] != 'V'
                && words[i][j] != 'i' && words[i][j] != 'm' && words[i][j] != 'x'
                && words[i][j] != ':' && words[i][j] != '=',
    ensures
        !safe(words),
{
    lemma_commands_are_told_apart(words);
    reveal_strlit("-c");
    assert("-c"@.len() == 2 && "-c"@[0] == '-' && "-c"@[1] == 'c');
    reveal_strlit("--");
    assert("--"@.len() == 2 && "--"@[0] == '-' && "--"@[1] == '-');
    let wants = |t: Seq<char>| perl_wants(t);
    let checks = |t: Seq<char>| t == "-c"@;
    let script = |t: Seq<char>| perl_script_flag(t);
    assert(role(words, 1, wants, true) == Role::Flag);
    assert(!script("-c"@) && !wants("-c"@)) by {
        assert("-c"@.last() == 'c');
    }
    let takes = |c: char| perl_takes(c);
    assert forall|j: int| 1 <= j < k implies !takes(#[trigger] words[i][j]) by {}
    if words[i][k] == 'e' {
        assert(cluster_gives(words[i], 'e', takes));
    }
    if words[i][k] == 'E' {
        assert(cluster_gives(words[i], 'E', takes));
    }
    assert(script(words[i]));
    assert(role(words, i, wants, true) == Role::Flag);
}

/// The word behind a flag of `perl` with an argument is that argument, whatever it is: the flags go
/// on behind it.
pub proof fn law_perl_flags_take_the_next_word(words: Seq<Seq<char>>)
    requires
        words.len() == 4,
        words[0] == "perl"@,
        words[1] == "-I"@,
        words[3] == "-c"@,
    ensures
        safe(words),
{
    lemma_commands_are_told_apart(words);
    reveal_strlit("-c");
    assert("-c"@.len() == 2 && "-c"@[0] == '-' && "-c"@[1] == 'c');
    reveal_strlit("--");
    assert("--"@.len() == 2 && "--"@[0] == '-' && "--"@[1] == '-');
    reveal_strlit("-I");
    assert("-I"@.len() == 2 && "-I"@[0] == '-' && "-I"@[1] == 'I');
    let wants = |t: Seq<char>| perl_wants(t);
    let checks = |t: Seq<char>| t == "-c"@;
    let script = |t: Seq<char>| perl_script_flag(t);
    assert(role(words, 1, wants, true) == Role::Flag);
    assert(!script("-c"@) && !wants("-c"@)) by {
        assert("-c"@.last() == 'c');
    }
    let t = words[1];
    if t[1] != '-' {
        assert(t.last() == t[1]);
        assert(cluster_wants(t, |c: char| c == 'I', |c: char| perl_takes(c)));
    }
    assert(wants(words[1]));
    assert(is_flag(words[1]));
    assert(!script(words[1]));
    assert(role(words, 2, wants, true) == Role::Argument);
    assert(role(words, 3, wants, true) == Role::Flag);
    assert(checks(words[3]));
    if any_flag(words, wants, true, script) {
        let i = choose|i: int|
            1 <= i < words.len() && #[trigger] role(words, i, wants, true) == Role::Flag && script(
                words[i],
            );
        assert(i == 1 || i == 2 || i == 3);
    }
}

/// A letter of `perl` with an argument takes the rest of its word: nothing behind it in the word is
/// a flag.
pub proof fn law_perl_letters_take_the_rest(words: Seq<Seq<char>>)
    requires
        words.len() == 3,
        words[0] == "perl"@,
        words[1] == "-c"@,
        words[2].len() > 1,
        words[2][0] == '-',
        words[2][1] == 'C' || words[2][1] == 'D' || words[2][1] == 'F' || words[2][1] == 'I'
            || words[2][1] == 'M' || words[2][1] == 'V' || words[2][1] == 'i' || words[2][1] == 'm'
            || words[2][1] == 'x' || words[2][1] == ':' || words[2][1] == '=',
    ensures
        safe(words),
{
    lemma_commands_are_told_apart(words);
    reveal_strlit("-c");
    assert("-c"@.len() == 2 && "-c"@[0] == '-' && "-c"@[1] == 'c');
    reveal_strlit("--");
    assert("--"@.len() == 2 && "--"@[0] == '-' && "--"@[1] == '-');
    let wants = |t: Seq<char>| perl_wants(t);
    let checks = |t: Seq<char>| t == "-c"@;
    let script = |t: Seq<char>| perl_script_flag(t);
    assert(role(words, 1, wants, true) == Role::Flag);
    assert(!script("-c"@) && !wants("-c"@)) by {
        assert("-c"@.last() == 'c');
    }
    assert(checks(words[1]));
    let takes = |c: char| perl_takes(c);
    assert(takes(words[2][1]));
    assert(!script(words[2]));
    if any_flag(words, wants, true, script) {
        let i = choose|i: int|
            1 <= i < words.len() && #[trigger] role(words, i, wants, true) == Role::Flag && script(
                words[i],
            );
        assert(i == 1 || i == 2);
    }
}

/// `ruby` runs without asking only where a word is the flag that checks the syntax of a script;
/// where its first word is no flag, that is the script, and it asks.
pub proof fn law_ruby_runs_only_to_check(words: Seq<Seq<char>>)
    requires
        words.len() > 0,
        words[0] == "ruby"@,
    ensures
        safe(words) ==> exists|i: int| 1 <= i < words.len() && #[trigger] words[i] == "-c"@,
        words.len() > 1 && !(words[1].len() > 1 && words[1][0] == '-') ==> !safe(words),
        words.len() == 1 ==> !safe(words),
{
    lemma_commands_are_told_apart(words);
    reveal_strlit("-c");
    assert("-c"@.len() == 2 && "-c"@[0] == '-' && "-c"@[1] == 'c');
    reveal_strlit("--");
    assert("--"@.len() == 2 && "--"@[0] == '-' && "--"@[1] == '-');
    let wants = |t: Seq<char>| ruby_wants(t);
    let checks = |t: Seq<char>| t == "-c"@;
    let script = |t: Seq<char>| ruby_script_flag(t);
    assert(role(words, 1, wants, true) == Role::Flag);
    if safe(words) {
        let i = choose|i: int|
            1 <= i < words.len() && #[trigger] role(words, i, wants, true) == Role::Flag && checks(
                words[i],
            );
        assert(words[i] == "-c"@);
        if !(words[1].len() > 1 && words[1][0] == '-') && i > 1 {
            assert(role(words, 2, wants, true) == Role::Operand);
            lemma_operands_behind(words, 2, i, wants, true);
        }
    }
}

/// `ruby` runs where its first word checks the syntax and the next one is the script, whatever
/// stands behind that.
pub proof fn law_ruby_checks_scripts(words: Seq<Seq<char>>)
    requires
        words.len() > 2,
        words[0] == "ruby"@,
        words[1] == "-c"@,
        !(words[2].len() > 1 && words[2][0] == '-'),
    ensures
        safe(words),
{
    lemma_commands_are_told_apart(words);
    reveal_strlit("-c");
    assert("-c"@.len() == 2 && "-c"@[0] == '-' && "-c"@[1] == 'c');
    reveal_strlit("--");
    assert("--"@.len() == 2 && "--"@[0] == '-' && "--"@[1] == '-');
    let wants = |t: Seq<char>| ruby_wants(t);
    let checks = |t: Seq<char>| t == "-c"@;
    let script = |t: Seq<char>| ruby_script_flag(t);
    assert(role(words, 1, wants, true) == Role::Flag);
    assert(!script("-c"@) && !wants("-c"@)) by {
        reveal_strlit("--disable");
        assert("--disable"@.len() == 9 && "--disable"@[0] == '-' && "--disable"@[1] == '-'
            && "--disable"@[2] == 'd' && "--disable"@[3] == 'i' && "--disable"@[4] == 's'
            && "--disable"@[5] == 'a' && "--disable"@[6] == 'b' && "--disable"@[7] == 'l'
            && "--disable"@[8] == 'e');
        reveal_strlit("--enable");
        assert("--enable"@.len() == 8 && "--enable"@[0] == '-' && "--enable"@[1] == '-'
            && "--enable"@[2] == 'e' && "--enable"@[3] == 'n' && "--enable"@[4] == 'a'
            && "--enable"@[5] == 'b' && "--enable"@[6] == 'l' && "--enable"@[7] == 'e');
        reveal_strlit("--encoding");
        assert("--encoding"@.len() == 10 && "--encoding"@[0] == '-' && "--encoding"@[1] == '-'
            && "--encoding"@[2] == 'e' && "--encoding"@[3] == 'n' && "--encoding"@[4] == 'c'
            && "--encoding"@[5] == 'o' && "--encoding"@[6] == 'd' && "--encoding"@[7] == 'i'
            && "--encoding"@[8] == 'n' && "--encoding"@[9] == 'g');
        reveal_strlit("--external-encoding");
        assert("--external-encoding"@.len() == 19 && "--external-encoding"@[0] == '-'
            && "--external-encoding"@[1] == '-' && "--external-encoding"@[2] == 'e'
            && "--external-encoding"@[3] == 'x' && "--external-encoding"@[4] == 't'
            && "--external-encoding"@[5] == 'e' && "--external-encoding"@[6] == 'r'
            && "--external-encoding"@[7] == 'n' && "--external-encoding"@[8] == 'a'
            && "--external-encoding"@[9] == 'l' && "--external-encoding"@[10] == '-'
            && "--external-encoding"@[11] == 'e' && "--external-encoding"@[12] == 'n'
            && "--external-encoding"@[13] == 'c' && "--external-encoding"@[14] == 'o'
            && "--external-encoding"@[15] == 'd' && "--external-encoding"@[16] == 'i'
            && "--external-encoding"@[17] == 'n' && "--external-encoding"@[18] == 'g');
        reveal_strlit("--internal-encoding");
        assert("--internal-encoding"@.len() == 19 && "--internal-encoding"@[0] == '-'
            && "--internal-encoding"@[1] == '-' && "--internal-encoding"@[2] == 'i'
            && "--internal-encoding"@[3] == 'n' && "--internal-encoding"@[4] == 't'
            && "--internal-encoding"@[5] == 'e' && "--internal-encoding"@[6] == 'r'
            && "--internal-encoding"@[7] == 'n' && "--internal-encoding"@[8] == 'a'
            && "--internal-encoding"@[9] == 'l' && "--internal-encoding"@[10] == '-'
            && "--internal-encoding"@[11] == 'e' && "--internal-encoding"@[12] == 'n'
            && "--internal-encoding"@[13] == 'c' && "--internal-encoding"@[14] == 'o'
            && "--internal-encoding"@[15] == 'd' && "--internal-encoding"@[16] == 'i'
            && "--internal-encoding"@[17] == 'n' && "--internal-encoding"@[18] == 'g');
        assert("-c"@.last() == 'c');
    }
    assert(checks(words[1]));
    assert(any_flag(words, wants, true, checks));
    assert(role(words, 2, wants, true) == Role::Flag);
    assert(!script(words[2]));
    if any_flag(words, wants, true, script) {
        let i = choose|i: int|
            1 <= i < words.len() && #[trigger] role(words, i, wants, true) == Role::Flag && script(
                words[i],
            );
        if i > 2 {
            assert(role(words, 3, wants, true) == Role::Operand);
            lemma_operands_behind(words, 3, i, wants, true);
        }
        assert(i == 1 || i == 2);
    }
}

/// `ruby` asks where its first word, or the one behind the flag that checks the syntax, is a
/// cluster in which the letter for inline code follows no letter with an argument.
pub proof fn law_ruby_asks_for_inline_code(words: Seq<Seq<char>>, i: int, k: int,)
    requires
        words[0] == "ruby"@,
        1 <= i <= 2,
        i < words.len(),
        i == 2 ==> words[1] == "-c"@,
        words[i].len() > 1,
        words[i][0] == '-',
        words[i][1] != '-',
        1 <= k < words[i].len(),
        words[i][k] == 'e',
        forall|j: int|
            1 <= j < k ==> #[trigger] words[i][j] != 'C' && words[i][j] != 'E' && words[i][j] != 'F'
                && words[i][j] != 'I' && words[i][j] != 'K' && words[i][j] != 'X'
                && words[i][j] != 'i' && words[i][j] != 'r' && words[i][j] != 'x'
                && words[i][j] != ':' && words[i][j] != '=',
    ensures
        !safe(words),
{
    lemma_commands_are_told_apart(words);
    reveal_strlit("-c");
    assert("-c"@.len() == 2 && "-c"@[0] == '-' && "-c"@[1] == 'c');
    reveal_strlit("--");
    assert("--"@.len() == 2 && "--"@[0] == '-' && "--"@[1] == '-');
    let wants = |t: Seq<char>| ruby_wants(t);
    let checks = |t: Seq<char>| t == "-c"@;
    let script = |t: Seq<char>| ruby_script_flag(t);
    assert(role(words, 1, wants, true) == Role::Flag);
    assert(!script("-c"@) && !wants("-c"@)) by {
        reveal_strlit("--disable");
        assert("--disable"@.len() == 9 && "--disable"@[0] == '-' && "--disable"@[1] == '-'
            && "--disable"@[2] == 'd' && "--disable"@[3] == 'i' && "--disable"@[4] == 's'
            && "--disable"@[5] == 'a' && "--disable"@[6] == 'b' && "--disable"@[7] == 'l'
            && "--disable"@[8] == 'e');
        reveal_strlit("--enable");
        assert("--enable"@.len() == 8 && "--enable"@[0] == '-' && "--enable"@[1] == '-'
            && "--enable"@[2] == 'e' && "--enable"@[3] == 'n' && "--enable"@[4] == 'a'
            && "--enable"@[5] == 'b' && "--enable"@[6] == 'l' && "--enable"@[7] == 'e');
        reveal_strlit("--encoding");
        assert("--encoding"@.len() == 10 && "--encoding"@[0] == '-' && "--encoding"@[1] == '-'
            && "--encoding"@[2] == 'e' && "--encoding"@[3] == 'n' && "--encoding"@[4] == 'c'
            && "--encoding"@[5] == 'o' && "--encoding"@[6] == 'd' && "--encoding"@[7] == 'i'
            && "--encoding"@[8] == 'n' && "--encoding"@[9] == 'g');
        reveal_strlit("--external-encoding");
        assert("--external-encoding"@.len() == 19 && "--external-encoding"@[0] == '-'
            && "--external-encoding"@[1] == '-' && "--external-encoding"@[2] == 'e'
            && "--external-encoding"@[3] == 'x' && "--external-encoding"@[4] == 't'
            && "--external-encoding"@[5] == 'e' && "--external-encoding"@[6] == 'r'
            && "--external-encoding"@[7] == 'n' && "--external-encoding"@[8] == 'a'
            && "--external-encoding"@[9] == 'l' && "--external-encoding"@[10] == '-'
            && "--external-encoding"@[11] == 'e' && "--external-encoding"@[12] == 'n'
            && "--external-encoding"@[13] == 'c' && "--external-encoding"@[14] == 'o'
            && "--external-encoding"@[15] == 'd' && "--external-encoding"@[16] == 'i'
            && "--external-encoding"@[17] == 'n' && "--external-encoding"@[18] == 'g');
        reveal_strlit("--internal-encoding");
        assert("--internal-encoding"@.len() == 19 && "--internal-encoding"@[0] == '-'
            && "--internal-encoding"@[1] == '-' && "--internal-encoding"@[2] == 'i'
            && "--internal-encoding"@[3] == 'n' && "--internal-encoding"@[4] == 't'
            && "--internal-encoding"@[5] == 'e' && "--internal-encoding"@[6] == 'r'
            && "--internal-encoding"@[7] == 'n' && "--internal-encoding"@[8] == 'a'
            && "--internal-encoding"@[9] == 'l' && "--internal-encoding"@[10] == '-'
            && "--internal-encoding"@[11] == 'e' && "--internal-encoding"@[12] == 'n'
            && "--internal-encoding"@[13] == 'c' && "--internal-encoding"@[14] == 'o'
            && "--internal-encoding"@[15] == 'd' && "--internal-encoding"@[16] == 'i'
            && "--internal-encoding"@[17] == 'n' && "--internal-encoding"@[18] == 'g');
        assert("-c"@.last() == 'c');
    }
    let takes = |c: char| ruby_takes(c);
    assert forall|j: int| 1 <= j < k implies !takes(#[trigger] words[i][j]) by {}
    if words[i][k] == 'e' {
        assert(cluster_gives(words[i], 'e', takes));
    }
    assert(script(words[i]));
    assert(role(words, i, wants, true) == Role::Flag);
}

/// The word behind a flag of `ruby` with an argument is that argument, whatever it is: the flags go
/// on behind it.
pub proof fn law_ruby_flags_take_the_next_word(words: Seq<Seq<char>>)
    requires
        words.len() == 4,
        words[0] == "ruby"@,
        words[1] == "-C"@ || words[1] == "-E"@ || words[1] == "-I"@ || words[1] == "-X"@ || words[1]
            == "-r"@ || words[1] == "--disable"@ || words[1] == "--enable"@ || words[1]
            == "--encoding"@ || words[1] == "--external-encoding"@ || words[1]
            == "--internal-encoding"@,
        words[3] == "-c"@,
    ensures
        safe(words),
{
    lemma_commands_are_told_apart(words);
    reveal_strlit("-c");
    assert("-c"@.len() == 2 && "-c"@[0] == '-' && "-c"@[1] == 'c');
    reveal_strlit("--");
    assert("--"@.len() == 2 && "--"@[0] == '-' && "--"@[1] == '-');
    reveal_strlit("-C");
    assert("-C"@.len() == 2 && "-C"@[0] == '-' && "-C"@[1] == 'C');
    reveal_strlit("-E");
    assert("-E"@.len() == 2 && "-E"@[0] == '-' && "-E"@[1] == 'E');
    reveal_strlit("-I");
    assert("-I"@.len() == 2 && "-I"@[0] == '-' && "-I"@[1] == 'I');
    reveal_strlit("-X");
    assert("-X"@.len() == 2 && "-X"@[0] == '-' && "-X"@[1] == 'X');
    reveal_strlit("-r");
    assert("-r"@.len() == 2 && "-r"@[0] == '-' && "-r"@[1] == 'r');
    reveal_strlit("--disable");
    assert("--disable"@.len() == 9 && "--disable"@[0] == '-' && "--disable"@[1] == '-'
        && "--disable"@[2] == 'd' && "--disable"@[3] == 'i' && "--disable"@[4] == 's'
        && "--disable"@[5] == 'a' && "--disable"@[6] == 'b' && "--disable"@[7] == 'l'
        && "--disable"@[8] == 'e');
    reveal_strlit("--enable");
    assert("--enable"@.len() == 8 && "--enable"@[0] == '-' && "--enable"@[1] == '-'
        && "--enable"@[2] == 'e' && "--enable"@[3] == 'n' && "--enable"@[4] == 'a' && "--enable"@[5]
        == 'b' && "--enable"@[6] == 'l' && "--enable"@[7] == 'e');
    reveal_strlit("--encoding");
    assert("--encoding"@.len() == 10 && "--encoding"@[0] == '-' && "--encoding"@[1] == '-'
        && "--encoding"@[2] == 'e' && "--encoding"@[3] == 'n' && "--encoding"@[4] == 'c'
        && "--encoding"@[5] == 'o' && "--encoding"@[6] == 'd' && "--encoding"@[7] == 'i'
        && "--encoding"@[8] == 'n' && "--encoding"@[9] == 'g');
    reveal_strlit("--external-encoding");
    assert("--external-encoding"@.len() == 19 && "--external-encoding"@[0] == '-'
        && "--external-encoding"@[1] == '-' && "--external-encoding"@[2] == 'e'
        && "--external-encoding"@[3] == 'x' && "--external-encoding"@[4] == 't'
        && "--external-encoding"@[5] == 'e' && "--external-encoding"@[6] == 'r'
        && "--external-encoding"@[7] == 'n' && "--external-encoding"@[8] == 'a'
        && "--external-encoding"@[9] == 'l' && "--external-encoding"@[10] == '-'
        && "--external-encoding"@[11] == 'e' && "--external-encoding"@[12] == 'n'
        && "--external-encoding"@[13] == 'c' && "--external-encoding"@[14] == 'o'
        && "--external-encoding"@[15] == 'd' && "--external-encoding"@[16] == 'i'
        && "--external-encoding"@[17] == 'n' && "--external-encoding"@[18] == 'g');
    reveal_strlit("--internal-encoding");
    assert("--internal-encoding"@.len() == 19 && "--internal-encoding"@[0] == '-'
        && "--internal-encoding"@[1] == '-' && "--internal-encoding"@[2] == 'i'
        && "--internal-encoding"@[3] == 'n' && "--internal-encoding"@[4] == 't'
        && "--internal-encoding"@[5] == 'e' && "--internal-encoding"@[6] == 'r'
        && "--internal-encoding"@[7] == 'n' && "--internal-encoding"@[8] == 'a'
        && "--internal-encoding"@[9] == 'l' && "--internal-encoding"@[10] == '-'
        && "--internal-encoding"@[11] == 'e' && "--internal-encoding"@[12] == 'n'
        && "--internal-encoding"@[13] == 'c' && "--internal-encoding"@[14] == 'o'
        && "--internal-encoding"@[15] == 'd' && "--internal-encoding"@[16] == 'i'
        && "--internal-encoding"@[17] == 'n' && "--internal-encoding"@[18] == 'g');
    let wants = |t: Seq<char>| ruby_wants(t);
    let checks = |t: Seq<char>| t == "-c"@;
    let script = |t: Seq<char>| ruby_script_flag(t);
    assert(role(words, 1, wants, true) == Role::Flag);
    assert(!script("-c"@) && !wants("-c"@)) by {
        reveal_strlit("--disable");
        assert("--disable"@.len() == 9 && "--disable"@[0] == '-' && "--disable"@[1] == '-'
            && "--disable"@[2] == 'd' && "--disable"@[3] == 'i' && "--disable"@[4] == 's'
            && "--disable"@[5] == 'a' && "--disable"@[6] == 'b' && "--disable"@[7] == 'l'
            && "--disable"@[8] == 'e');
        reveal_strlit("--enable");
        assert("--enable"@.len() == 8 && "--enable"@[0] == '-' && "--enable"@[1] == '-'
            && "--enable"@[2] == 'e' && "--enable"@[3] == 'n' && "--enable"@[4] == 'a'
            && "--enable"@[5] == 'b' && "--enable"@[6] == 'l' && "--enable"@[7] == 'e');
        reveal_strlit("--encoding");
        assert("--encoding"@.len() == 10 && "--encoding"@[0] == '-' && "--encoding"@[1] == '-'
            && "--encoding"@[2] == 'e' && "--encoding"@[3] == 'n' && "--encoding"@[4] == 'c'
            && "--encoding"@[5] == 'o' && "--encoding"@[6] == 'd' && "--encoding"@[7] == 'i'
            && "--encoding"@[8] == 'n' && "--encoding"@[9] == 'g');
        reveal_strlit("--external-encoding");
        assert("--external-encoding"@.len() == 19 && "--external-encoding"@[0] == '-'
            && "--external-encoding"@[1] == '-' && "--external-encoding"@[2] == 'e'
            && "--external-encoding"@[3] == 'x' && "--external-encoding"@[4] == 't'
            && "--external-encoding"@[5] == 'e' && "--external-encoding"@[6] == 'r'
            && "--external-encoding"@[7] == 'n' && "--external-encoding"@[8] == 'a'
            && "--external-encoding"@[9] == 'l' && "--external-encoding"@[10] == '-'
            && "--external-encoding"@[11] == 'e' && "--external-encoding"@[12] == 'n'
            && "--external-encoding"@[13] == 'c' && "--external-encoding"@[14] == 'o'
            && "--external-encoding"@[15] == 'd' && "--external-encoding"@[16] == 'i'
            && "--external-encoding"@[17] == 'n' && "--external-encoding"@[18] == 'g');
        reveal_strlit("--internal-encoding");
        assert("--internal-encoding"@.len() == 19 && "--internal-encoding"@[0] == '-'
            && "--internal-encoding"@[1] == '-' && "--internal-encoding"@[2] == 'i'
            && "--internal-encoding"@[3] == 'n' && "--internal-encoding"@[4] == 't'
            && "--internal-encoding"@[5] == 'e' && "--internal-encoding"@[6] == 'r'
            && "--internal-encoding"@[7] == 'n' && "--internal-encoding"@[8] == 'a'
            && "--internal-encoding"@[9] == 'l' && "--internal-encoding"@[10] == '-'
            && "--internal-encoding"@[11] == 'e' && "--internal-encoding"@[12] == 'n'
            && "--internal-encoding"@[13] == 'c' && "--internal-encoding"@[14] == 'o'
            && "--internal-encoding"@[15] == 'd' && "--internal-encoding"@[16] == 'i'
            && "--internal-encoding"@[17] == 'n' && "--internal-encoding"@[18] == 'g');
        assert("-c"@.last() == 'c');
    }
    let t = words[1];
    if t[1] != '-' {
        assert(t.last() == t[1]);
        assert(cluster_wants(t, |c: char| ruby_wants_for(c), |c: char| ruby_takes(c)));
    }
    assert(wants(words[1]));
    assert(is_flag(words[1]));
    assert(!script(words[1]));
    assert(role(words, 2, wants, true) == Role::Argument);
    assert(role(words, 3, wants, true) == Role::Flag);
    assert(checks(words[3]));
    if any_flag(words, wants, true, script) {
        let i = choose|i: int|
            1 <= i < words.len() && #[trigger] role(words, i, wants, true) == Role::Flag && script(
                words[i],
            );
        assert(i == 1 || i == 2 || i == 3);
    }
}

/// A letter of `ruby` with an argument takes the rest of its word: nothing behind it in the word is
/// a flag.
pub proof fn law_ruby_letters_take_the_rest(words: Seq<Seq<char>>)
    requires
        words.len() == 3,
        words[0] == "ruby"@,
        words[1] == "-c"@,
        words[2].len() > 1,
        words[2][0] == '-',
        words[2][1] == 'C' || words[2][1] == 'E' || words[2][1] == 'F' || words[2][1] == 'I'
            || words[2][1] == 'K' || words[2][1] == 'X' || words[2][1] == 'i' || words[2][1] == 'r'
            || words[2][1] == 'x' || words[2][1] == ':' || words[2][1] == '=',
    ensures
        safe(words),
{
    lemma_commands_are_told_apart(words);
    reveal_strlit("-c");
    assert("-c"@.len() == 2 && "-c"@[0] == '-' && "-c"@[1] == 'c');
    reveal_strlit("--");
    assert("--"@.len() == 2 && "--"@[0] == '-' && "--"@[1] == '-');
    let wants = |t: Seq<char>| ruby_wants(t);
    let checks = |t: Seq<char>| t == "-c"@;
    let script = |t: Seq<char>| ruby_script_flag(t);
    assert(role(words, 1, wants, true) == Role::Flag);
    assert(!script("-c"@) && !wants("-c"@)) by {
        reveal_strlit("--disable");
        assert("--disable"@.len() == 9 && "--disable"@[0] == '-' && "--disable"@[1] == '-'
            && "--disable"@[2] == 'd' && "--disable"@[3] == 'i' && "--disable"@[4] == 's'
            && "--disable"@[5] == 'a' && "--disable"@[6] == 'b' && "--disable"@[7] == 'l'
            && "--disable"@[8] == 'e');
        reveal_strlit("--enable");
        assert("--enable"@.len() == 8 && "--enable"@[0] == '-' && "--enable"@[1] == '-'
            && "--enable"@[2] == 'e' && "--enable"@[3] == 'n' && "--enable"@[4] == 'a'
            && "--enable"@[5] == 'b' && "--enable"@[6] == 'l' && "--enable"@[7] == 'e');
        reveal_strlit("--encoding");
        assert("--encoding"@.len() == 10 && "--encoding"@[0] == '-' && "--encoding"@[1] == '-'
            && "--encoding"@[2] == 'e' && "--encoding"@[3] == 'n' && "--encoding"@[4] == 'c'
            && "--encoding"@[5] == 'o' && "--encoding"@[6] == 'd' && "--encoding"@[7] == 'i'
            && "--encoding"@[8] == 'n' && "--encoding"@[9] == 'g');
        reveal_strlit("--external-encoding");
        assert("--external-encoding"@.len() == 19 && "--external-encoding"@[0] == '-'
            && "--external-encoding"@[1] == '-' && "--external-encoding"@[2] == 'e'
            && "--external-encoding"@[3] == 'x' && "--external-encoding"@[4] == 't'
            && "--external-encoding"@[5] == 'e' && "--external-encoding"@[6] == 'r'
            && "--external-encoding"@[7] == 'n' && "--external-encoding"@[8] == 'a'
            && "--external-encoding"@[9] == 'l' && "--external-encoding"@[10] == '-'
            && "--external-encoding"@[11] == 'e' && "--external-encoding"@[12] == 'n'
            && "--external-encoding"@[13] == 'c' && "--external-encoding"@[14] == 'o'
            && "--external-encoding"@[15] == 'd' && "--external-encoding"@[16] == 'i'
            && "--external-encoding"@[17] == 'n' && "--external-encoding"@[18] == 'g');
        reveal_strlit("--internal-encoding");
        assert("--internal-encoding"@.len() == 19 && "--internal-encoding"@[0] == '-'
            && "--internal-encoding"@[1] == '-' && "--internal-encoding"@[2] == 'i'
            && "--internal-encoding"@[3] == 'n' && "--internal-encoding"@[4] == 't'
            && "--internal-encoding"@[5] == 'e' && "--internal-encoding"@[6] == 'r'
            && "--internal-encoding"@[7] == 'n' && "--internal-encoding"@[8] == 'a'
            && "--internal-encoding"@[9] == 'l' && "--internal-encoding"@[10] == '-'
            && "--internal-encoding"@[11] == 'e' && "--internal-encoding"@[12] == 'n'
            && "--internal-encoding"@[13] == 'c' && "--internal-encoding"@[14] == 'o'
            && "--internal-encoding"@[15] == 'd' && "--internal-encoding"@[16] == 'i'
            && "--internal-encoding"@[17] == 'n' && "--internal-encoding"@[18] == 'g');
        assert("-c"@.last() == 'c');
    }
    assert(checks(words[1]));
    let takes = |c: char| ruby_takes(c);
    assert(takes(words[2][1]));
    assert(!script(words[2]));
    if any_flag(words, wants, true, script) {
        let i = choose|i: int|
            1 <= i < words.len() && #[trigger] role(words, i, wants, true) == Role::Flag && script(
                words[i],
            );
        assert(i == 1 || i == 2);
    }
}

/// `node` runs without asking only where a word is the flag that checks the syntax of a script;
/// where its first word is no flag, that is the script, and it asks.
pub proof fn law_node_runs_only_to_check(words: Seq<Seq<char>>)
    requires
        words.len() > 0,
        words[0] == "node"@,
    ensures
        safe(words) ==> exists|i: int| 1 <= i < words.len() && #[trigger] words[i] == "--check"@,
        words.len() > 1 && !(words[1].len() > 1 && words[1][0] == '-') ==> !safe(words),
        words.len() == 1 ==> !safe(words),
{
    lemma_commands_are_told_apart(words);
    reveal_strlit("--check");
    assert("--check"@.len() == 7 && "--check"@[0] == '-' && "--check"@[1] == '-' && "--check"@[2]
        == 'c' && "--check"@[3] == 'h' && "--check"@[4] == 'e' && "--check"@[5] == 'c'
        && "--check"@[6] == 'k');
    reveal_strlit("--");
    assert("--"@.len() == 2 && "--"@[0] == '-' && "--"@[1] == '-');
    reveal_strlit("-e");
    assert("-e"@.len() == 2 && "-e"@[0] == '-' && "-e"@[1] == 'e');
    reveal_strlit("-p");
    assert("-p"@.len() == 2 && "-p"@[0] == '-' && "-p"@[1] == 'p');
    reveal_strlit("-pe");
    assert("-pe"@.len() == 3 && "-pe"@[0] == '-' && "-pe"@[1] == 'p' && "-pe"@[2] == 'e');
    reveal_strlit("--eval");
    assert("--eval"@.len() == 6 && "--eval"@[0] == '-' && "--eval"@[1] == '-' && "--eval"@[2] == 'e'
        && "--eval"@[3] == 'v' && "--eval"@[4] == 'a' && "--eval"@[5] == 'l');
    reveal_strlit("--eval=");
    assert("--eval="@.len() == 7 && "--eval="@[0] == '-' && "--eval="@[1] == '-' && "--eval="@[2]
        == 'e' && "--eval="@[3] == 'v' && "--eval="@[4] == 'a' && "--eval="@[5] == 'l'
        && "--eval="@[6] == '=');
    reveal_strlit("--print");
    assert("--print"@.len() == 7 && "--print"@[0] == '-' && "--print"@[1] == '-' && "--print"@[2]
        == 'p' && "--print"@[3] == 'r' && "--print"@[4] == 'i' && "--print"@[5] == 'n'
        && "--print"@[6] == 't');
    reveal_strlit("--print=");
    assert("--print="@.len() == 8 && "--print="@[0] == '-' && "--print="@[1] == '-'
        && "--print="@[2] == 'p' && "--print="@[3] == 'r' && "--print="@[4] == 'i' && "--print="@[5]
        == 'n' && "--print="@[6] == 't' && "--print="@[7] == '=');
    let wants = |t: Seq<char>| node_wants(t);
    let checks = |t: Seq<char>| t == "--check"@;
    let script = |t: Seq<char>| node_script_flag(t);
    assert(role(words, 1, wants, true) == Role::Flag);
    if safe(words) {
        let i = choose|i: int|
            1 <= i < words.len() && #[trigger] role(words, i, wants, true) == Role::Flag && checks(
                words[i],
            );
        assert(words[i] == "--check"@);
        if !(words[1].len() > 1 && words[1][0] == '-') && i > 1 {
            assert(role(words, 2, wants, true) == Role::Operand);
            lemma_operands_behind(words, 2, i, wants, true);
        }
    }
}

/// `node` runs where its first word checks the syntax and the next one is the script, whatever
/// stands behind that.
pub proof fn law_node_checks_scripts(words: Seq<Seq<char>>)
    requires
        words.len() > 2,
        words[0] == "node"@,
        words[1] == "--check"@,
        !(words[2].len() > 1 && words[2][0] == '-'),
    ensures
        safe(words),
{
    lemma_commands_are_told_apart(words);
    reveal_strlit("--check");
    assert("--check"@.len() == 7 && "--check"@[0] == '-' && "--check"@[1] == '-' && "--check"@[2]
        == 'c' && "--check"@[3] == 'h' && "--check"@[4] == 'e' && "--check"@[5] == 'c'
        && "--check"@[6] == 'k');
    reveal_strlit("--");
    assert("--"@.len() == 2 && "--"@[0] == '-' && "--"@[1] == '-');
    reveal_strlit("-e");
    assert("-e"@.len() == 2 && "-e"@[0] == '-' && "-e"@[1] == 'e');
    reveal_strlit("-p");
    assert("-p"@.len() == 2 && "-p"@[0] == '-' && "-p"@[1] == 'p');
    reveal_strlit("-pe");
    assert("-pe"@.len() == 3 && "-pe"@[0] == '-' && "-pe"@[1] == 'p' && "-pe"@[2] == 'e');
    reveal_strlit("--eval");
    assert("--eval"@.len() == 6 && "--eval"@[0] == '-' && "--eval"@[1] == '-' && "--eval"@[2] == 'e'
        && "--eval"@[3] == 'v' && "--eval"@[4] == 'a' && "--eval"@[5] == 'l');
    reveal_strlit("--eval=");
    assert("--eval="@.len() == 7 && "--eval="@[0] == '-' && "--eval="@[1] == '-' && "--eval="@[2]
        == 'e' && "--eval="@[3] == 'v' && "--eval="@[4] == 'a' && "--eval="@[5] == 'l'
        && "--eval="@[6] == '=');
    reveal_strlit("--print");
    assert("--print"@.len() == 7 && "--print"@[0] == '-' && "--print"@[1] == '-' && "--print"@[2]
        == 'p' && "--print"@[3] == 'r' && "--print"@[4] == 'i' && "--print"@[5] == 'n'
        && "--print"@[6] == 't');
    reveal_strlit("--print=");
    assert("--print="@.len() == 8 && "--print="@[0] == '-' && "--print="@[1] == '-'
        && "--print="@[2] == 'p' && "--print="@[3] == 'r' && "--print="@[4] == 'i' && "--print="@[5]
        == 'n' && "--print="@[6] == 't' && "--print="@[7] == '=');
    let wants = |t: Seq<char>| node_wants(t);
    let checks = |t: Seq<char>| t == "--check"@;
    let script = |t: Seq<char>| node_script_flag(t);
    assert(role(words, 1, wants, true) == Role::Flag);
    assert(!script("--check"@) && !wants("--check"@)) by {
        if "--eval="@.is_prefix_of("--check"@) {
            assert("--check"@.subrange(0, 7)[2] == "--check"@[2]);
        }
        assert("--eval"@.push('=') =~= "--eval="@);
        assert("--print"@.push('=') =~= "--print="@);
        reveal_strlit("-C");
        assert("-C"@.len() == 2 && "-C"@[0] == '-' && "-C"@[1] == 'C');
        reveal_strlit("-r");
        assert("-r"@.len() == 2 && "-r"@[0] == '-' && "-r"@[1] == 'r');
        reveal_strlit("--conditions");
        assert("--conditions"@.len() == 12 && "--conditions"@[0] == '-' && "--conditions"@[1] == '-'
            && "--conditions"@[2] == 'c' && "--conditions"@[3] == 'o' && "--conditions"@[4] == 'n'
            && "--conditions"@[5] == 'd' && "--conditions"@[6] == 'i' && "--conditions"@[7] == 't'
            && "--conditions"@[8] == 'i' && "--conditions"@[9] == 'o' && "--conditions"@[10] == 'n'
            && "--conditions"@[11] == 's');
        reveal_strlit("--env-file");
        assert("--env-file"@.len() == 10 && "--env-file"@[0] == '-' && "--env-file"@[1] == '-'
            && "--env-file"@[2] == 'e' && "--env-file"@[3] == 'n' && "--env-file"@[4] == 'v'
            && "--env-file"@[5] == '-' && "--env-file"@[6] == 'f' && "--env-file"@[7] == 'i'
            && "--env-file"@[8] == 'l' && "--env-file"@[9] == 'e');
        reveal_strlit("--experimental-loader");
        assert("--experimental-loader"@.len() == 21 && "--experimental-loader"@[0] == '-'
            && "--experimental-loader"@[1] == '-' && "--experimental-loader"@[2] == 'e'
            && "--experimental-loader"@[3] == 'x' && "--experimental-loader"@[4] == 'p'
            && "--experimental-loader"@[5] == 'e' && "--experimental-loader"@[6] == 'r'
            && "--experimental-loader"@[7] == 'i' && "--experimental-loader"@[8] == 'm'
            && "--experimental-loader"@[9] == 'e' && "--experimental-loader"@[10] == 'n'
            && "--experimental-loader"@[11] == 't' && "--experimental-loader"@[12] == 'a'
            && "--experimental-loader"@[13] == 'l' && "--experimental-loader"@[14] == '-'
            && "--experimental-loader"@[15] == 'l' && "--experimental-loader"@[16] == 'o'
            && "--experimental-loader"@[17] == 'a' && "--experimental-loader"@[18] == 'd'
            && "--experimental-loader"@[19] == 'e' && "--experimental-loader"@[20] == 'r');
        reveal_strlit("--import");
        assert("--import"@.len() == 8 && "--import"@[0] == '-' && "--import"@[1] == '-'
            && "--import"@[2] == 'i' && "--import"@[3] == 'm' && "--import"@[4] == 'p'
            && "--import"@[5] == 'o' && "--import"@[6] == 'r' && "--import"@[7] == 't');
        reveal_strlit("--input-type");
        assert("--input-type"@.len() == 12 && "--input-type"@[0] == '-' && "--input-type"@[1] == '-'
            && "--input-type"@[2] == 'i' && "--input-type"@[3] == 'n' && "--input-type"@[4] == 'p'
            && "--input-type"@[5] == 'u' && "--input-type"@[6] == 't' && "--input-type"@[7] == '-'
            && "--input-type"@[8] == 't' && "--input-type"@[9] == 'y' && "--input-type"@[10] == 'p'
            && "--input-type"@[11] == 'e');
        reveal_strlit("--loader");
        assert("--loader"@.len() == 8 && "--loader"@[0] == '-' && "--loader"@[1] == '-'
            && "--loader"@[2] == 'l' && "--loader"@[3] == 'o' && "--loader"@[4] == 'a'
            && "--loader"@[5] == 'd' && "--loader"@[6] == 'e' && "--loader"@[7] == 'r');
        reveal_strlit("--require");
        assert("--require"@.len() == 9 && "--require"@[0] == '-' && "--require"@[1] == '-'
            && "--require"@[2] == 'r' && "--require"@[3] == 'e' && "--require"@[4] == 'q'
            && "--require"@[5] == 'u' && "--require"@[6] == 'i' && "--require"@[7] == 'r'
            && "--require"@[8] == 'e');
        reveal_strlit("--title");
        assert("--title"@.len() == 7 && "--title"@[0] == '-' && "--title"@[1] == '-'
            && "--title"@[2] == 't' && "--title"@[3] == 'i' && "--title"@[4] == 't' && "--title"@[5]
            == 'l' && "--title"@[6] == 'e');
    }
    assert(checks(words[1]));
    assert(any_flag(words, wants, true, checks));
    assert(role(words, 2, wants, true) == Role::Flag);
    assert(!script(words[2])) by {
        let t = words[2];
        assert("--eval"@.push('=') =~= "--eval="@);
        assert("--print"@.push('=') =~= "--print="@);
        if "--eval="@.is_prefix_of(t) {
            assert(t.subrange(0, 7)[0] == t[0]);
        }
        if "--print="@.is_prefix_of(t) {
            assert(t.subrange(0, 8)[0] == t[0]);
        }
    }
    assert(!script(words[2]));
    if any_flag(words, wants, true, script) {
        let i = choose|i: int|
            1 <= i < words.len() && #[trigger] role(words, i, wants, true) == Role::Flag && script(
                words[i],
            );
        if i > 2 {
            assert(role(words, 3, wants, true) == Role::Operand);
            lemma_operands_behind(words, 3, i, wants, true);
        }
        assert(i == 1 || i == 2);
    }
}

/// `node` asks where its first word, or the one behind the flag that checks the syntax, is `-e`,
/// `-p`, `-pe`, `--eval` or `--print`.
pub proof fn law_node_asks_for_inline_code(words: Seq<Seq<char>>, i: int,)
    requires
        words[0] == "node"@,
        1 <= i <= 2,
        i < words.len(),
        i == 2 ==> words[1] == "--check"@,
        words[i] == "-e"@ || words[i] == "-p"@ || words[i] == "-pe"@ || words[i] == "--eval"@
            || words[i]
            == "--print"@ || "--eval="@.is_prefix_of(words[i])
                || "--print="@.is_prefix_of(words[i]),
    ensures
        !safe(words),
{
    lemma_commands_are_told_apart(words);
    reveal_strlit("--check");
    assert("--check"@.len() == 7 && "--check"@[0] == '-' && "--check"@[1] == '-' && "--check"@[2]
        == 'c' && "--check"@[3] == 'h' && "--check"@[4] == 'e' && "--check"@[5] == 'c'
        && "--check"@[6] == 'k');
    reveal_strlit("--");
    assert("--"@.len() == 2 && "--"@[0] == '-' && "--"@[1] == '-');
    reveal_strlit("-e");
    assert("-e"@.len() == 2 && "-e"@[0] == '-' && "-e"@[1] == 'e');
    reveal_strlit("-p");
    assert("-p"@.len() == 2 && "-p"@[0] == '-' && "-p"@[1] == 'p');
    reveal_strlit("-pe");
    assert("-pe"@.len() == 3 && "-pe"@[0] == '-' && "-pe"@[1] == 'p' && "-pe"@[2] == 'e');
    reveal_strlit("--eval");
    assert("--eval"@.len() == 6 && "--eval"@[0] == '-' && "--eval"@[1] == '-' && "--eval"@[2] == 'e'
        && "--eval"@[3] == 'v' && "--eval"@[4] == 'a' && "--eval"@[5] == 'l');
    reveal_strlit("--eval=");
    assert("--eval="@.len() == 7 && "--eval="@[0] == '-' && "--eval="@[1] == '-' && "--eval="@[2]
        == 'e' && "--eval="@[3] == 'v' && "--eval="@[4] == 'a' && "--eval="@[5] == 'l'
        && "--eval="@[6] == '=');
    reveal_strlit("--print");
    assert("--print"@.len() == 7 && "--print"@[0] == '-' && "--print"@[1] == '-' && "--print"@[2]
        == 'p' && "--print"@[3] == 'r' && "--print"@[4] == 'i' && "--print"@[5] == 'n'
        && "--print"@[6] == 't');
    reveal_strlit("--print=");
    assert("--print="@.len() == 8 && "--print="@[0] == '-' && "--print="@[1] == '-'
        && "--print="@[2] == 'p' && "--print="@[3] == 'r' && "--print="@[4] == 'i' && "--print="@[5]
        == 'n' && "--print="@[6] == 't' && "--print="@[7] == '=');
    let wants = |t: Seq<char>| node_wants(t);
    let checks = |t: Seq<char>| t == "--check"@;
    let script = |t: Seq<char>| node_script_flag(t);
    assert(role(words, 1, wants, true) == Role::Flag);
    assert(!script("--check"@) && !wants("--check"@)) by {
        if "--eval="@.is_prefix_of("--check"@) {
            assert("--check"@.subrange(0, 7)[2] == "--check"@[2]);
        }
        assert("--eval"@.push('=') =~= "--eval="@);
        assert("--print"@.push('=') =~= "--print="@);
        reveal_strlit("-C");
        assert("-C"@.len() == 2 && "-C"@[0] == '-' && "-C"@[1] == 'C');
        reveal_strlit("-r");
        assert("-r"@.len() == 2 && "-r"@[0] == '-' && "-r"@[1] == 'r');
        reveal_strlit("--conditions");
        assert("--conditions"@.len() == 12 && "--conditions"@[0] == '-' && "--conditions"@[1] == '-'
            && "--conditions"@[2] == 'c' && "--conditions"@[3] == 'o' && "--conditions"@[4] == 'n'
            && "--conditions"@[5] == 'd' && "--conditions"@[6] == 'i' && "--conditions"@[7] == 't'
            && "--conditions"@[8] == 'i' && "--conditions"@[9] == 'o' && "--conditions"@[10] == 'n'
            && "--conditions"@[11] == 's');
        reveal_strlit("--env-file");
        assert("--env-file"@.len() == 10 && "--env-file"@[0] == '-' && "--env-file"@[1] == '-'
            && "--env-file"@[2] == 'e' && "--env-file"@[3] == 'n' && "--env-file"@[4] == 'v'
            && "--env-file"@[5] == '-' && "--env-file"@[6] == 'f' && "--env-file"@[7] == 'i'
            && "--env-file"@[8] == 'l' && "--env-file"@[9] == 'e');
        reveal_strlit("--experimental-loader");
        assert("--experimental-loader"@.len() == 21 && "--experimental-loader"@[0] == '-'
            && "--experimental-loader"@[1] == '-' && "--experimental-loader"@[2] == 'e'
            && "--experimental-loader"@[3] == 'x' && "--experimental-loader"@[4] == 'p'
            && "--experimental-loader"@[5] == 'e' && "--experimental-loader"@[6] == 'r'
            && "--experimental-loader"@[7] == 'i' && "--experimental-loader"@[8] == 'm'
            && "--experimental-loader"@[9] == 'e' && "--experimental-loader"@[10] == 'n'
            && "--experimental-loader"@[11] == 't' && "--experimental-loader"@[12] == 'a'
            && "--experimental-loader"@[13] == 'l' && "--experimental-loader"@[14] == '-'
            && "--experimental-loader"@[15] == 'l' && "--experimental-loader"@[16] == 'o'
            && "--experimental-loader"@[17] == 'a' && "--experimental-loader"@[18] == 'd'
            && "--experimental-loader"@[19] == 'e' && "--experimental-loader"@[20] == 'r');
        reveal_strlit("--import");
        assert("--import"@.len() == 8 && "--import"@[0] == '-' && "--import"@[1] == '-'
            && "--import"@[2] == 'i' && "--import"@[3] == 'm' && "--import"@[4] == 'p'
            && "--import"@[5] == 'o' && "--import"@[6] == 'r' && "--import"@[7] == 't');
        reveal_strlit("--input-type");
        assert("--input-type"@.len() == 12 && "--input-type"@[0] == '-' && "--input-type"@[1] == '-'
            && "--input-type"@[2] == 'i' && "--input-type"@[3] == 'n' && "--input-type"@[4] == 'p'
            && "--input-type"@[5] == 'u' && "--input-type"@[6] == 't' && "--input-type"@[7] == '-'
            && "--input-type"@[8] == 't' && "--input-type"@[9] == 'y' && "--input-type"@[10] == 'p'
            && "--input-type"@[11] == 'e');
        reveal_strlit("--loader");
        assert("--loader"@.len() == 8 && "--loader"@[0] == '-' && "--loader"@[1] == '-'
            && "--loader"@[2] == 'l' && "--loader"@[3] == 'o' && "--loader"@[4] == 'a'
            && "--loader"@[5] == 'd' && "--loader"@[6] == 'e' && "--loader"@[7] == 'r');
        reveal_strlit("--require");
        assert("--require"@.len() == 9 && "--require"@[0] == '-' && "--require"@[1] == '-'
            && "--require"@[2] == 'r' && "--require"@[3] == 'e' && "--require"@[4] == 'q'
            && "--require"@[5] == 'u' && "--require"@[6] == 'i' && "--require"@[7] == 'r'
            && "--require"@[8] == 'e');
        reveal_strlit("--title");
        assert("--title"@.len() == 7 && "--title"@[0] == '-' && "--title"@[1] == '-'
            && "--title"@[2] == 't' && "--title"@[3] == 'i' && "--title"@[4] == 't' && "--title"@[5]
            == 'l' && "--title"@[6] == 'e');
    }
    assert("--eval"@.push('=') =~= "--eval="@);
    assert("--print"@.push('=') =~= "--print="@);
    assert(script(words[i]));
    assert(role(words, i, wants, true) == Role::Flag);
}

/// The word behind a flag of `node` with an argument is that argument, whatever it is: the flags go
/// on behind it.
pub proof fn law_node_flags_take_the_next_word(words: Seq<Seq<char>>)
    requires
        words.len() == 4,
        words[0] == "node"@,
        words[1] == "-C"@ || words[1] == "-r"@ || words[1] == "--conditions"@ || words[1]
            == "--env-file"@ || words[1] == "--experimental-loader"@ || words[1] == "--import"@
            || words[1] == "--input-type"@ || words[1] == "--loader"@ || words[1] == "--require"@
            || words[1] == "--title"@,
        words[3] == "--check"@,
    ensures
        safe(words),
{
    lemma_commands_are_told_apart(words);
    reveal_strlit("--check");
    assert("--check"@.len() == 7 && "--check"@[0] == '-' && "--check"@[1] == '-' && "--check"@[2]
        == 'c' && "--check"@[3] == 'h' && "--check"@[4] == 'e' && "--check"@[5] == 'c'
        && "--check"@[6] == 'k');
    reveal_strlit("--");
    assert("--"@.len() == 2 && "--"@[0] == '-' && "--"@[1] == '-');
    reveal_strlit("-e");
    assert("-e"@.len() == 2 && "-e"@[0] == '-' && "-e"@[1] == 'e');
    reveal_strlit("-p");
    assert("-p"@.len() == 2 && "-p"@[0] == '-' && "-p"@[1] == 'p');
    reveal_strlit("-pe");
    assert("-pe"@.len() == 3 && "-pe"@[0] == '-' && "-pe"@[1] == 'p' && "-pe"@[2] == 'e');
    reveal_strlit("--eval");
    assert("--eval"@.len() == 6 && "--eval"@[0] == '-' && "--eval"@[1] == '-' && "--eval"@[2] == 'e'
        && "--eval"@[3] == 'v' && "--eval"@[4] == 'a' && "--eval"@[5] == 'l');
    reveal_strlit("--eval=");
    assert("--eval="@.len() == 7 && "--eval="@[0] == '-' && "--eval="@[1] == '-' && "--eval="@[2]
        == 'e' && "--eval="@[3] == 'v' && "--eval="@[4] == 'a' && "--eval="@[5] == 'l'
        && "--eval="@[6] == '=');
    reveal_strlit("--print");
    assert("--print"@.len() == 7 && "--print"@[0] == '-' && "--print"@[1] == '-' && "--print"@[2]
        == 'p' && "--print"@[3] == 'r' && "--print"@[4] == 'i' && "--print"@[5] == 'n'
        && "--print"@[6] == 't');
    reveal_strlit("--print=");
    assert("--print="@.len() == 8 && "--print="@[0] == '-' && "--print="@[1] == '-'
        && "--print="@[2] == 'p' && "--print="@[3] == 'r' && "--print="@[4] == 'i' && "--print="@[5]
        == 'n' && "--print="@[6] == 't' && "--print="@[7] == '=');
    reveal_strlit("-C");
    assert("-C"@.len() == 2 && "-C"@[0] == '-' && "-C"@[1] == 'C');
    reveal_strlit("-r");
    assert("-r"@.len() == 2 && "-r"@[0] == '-' && "-r"@[1] == 'r');
    reveal_strlit("--conditions");
    assert("--conditions"@.len() == 12 && "--conditions"@[0] == '-' && "--conditions"@[1] == '-'
        && "--conditions"@[2] == 'c' && "--conditions"@[3] == 'o' && "--conditions"@[4] == 'n'
        && "--conditions"@[5] == 'd' && "--conditions"@[6] == 'i' && "--conditions"@[7] == 't'
        && "--conditions"@[8] == 'i' && "--conditions"@[9] == 'o' && "--conditions"@[10] == 'n'
        && "--conditions"@[11] == 's');
    reveal_strlit("--env-file");
    assert("--env-file"@.len() == 10 && "--env-file"@[0] == '-' && "--env-file"@[1] == '-'
        && "--env-file"@[2] == 'e' && "--env-file"@[3] == 'n' && "--env-file"@[4] == 'v'
        && "--env-file"@[5] == '-' && "--env-file"@[6] == 'f' && "--env-file"@[7] == 'i'
        && "--env-file"@[8] == 'l' && "--env-file"@[9] == 'e');
    reveal_strlit("--experimental-loader");
    assert("--experimental-loader"@.len() == 21 && "--experimental-loader"@[0] == '-'
        && "--experimental-loader"@[1] == '-' && "--experimental-loader"@[2] == 'e'
        && "--experimental-loader"@[3] == 'x' && "--experimental-loader"@[4] == 'p'
        && "--experimental-loader"@[5] == 'e' && "--experimental-loader"@[6] == 'r'
        && "--experimental-loader"@[7] == 'i' && "--experimental-loader"@[8] == 'm'
        && "--experimental-loader"@[9] == 'e' && "--experimental-loader"@[10] == 'n'
        && "--experimental-loader"@[11] == 't' && "--experimental-loader"@[12] == 'a'
        && "--experimental-loader"@[13] == 'l' && "--experimental-loader"@[14] == '-'
        && "--experimental-loader"@[15] == 'l' && "--experimental-loader"@[16] == 'o'
        && "--experimental-loader"@[17] == 'a' && "--experimental-loader"@[18] == 'd'
        && "--experimental-loader"@[19] == 'e' && "--experimental-loader"@[20] == 'r');
    reveal_strlit("--import");
    assert("--import"@.len() == 8 && "--import"@[0] == '-' && "--import"@[1] == '-'
        && "--import"@[2] == 'i' && "--import"@[3] == 'm' && "--import"@[4] == 'p' && "--import"@[5]
        == 'o' && "--import"@[6] == 'r' && "--import"@[7] == 't');
    reveal_strlit("--input-type");
    assert("--input-type"@.len() == 12 && "--input-type"@[0] == '-' && "--input-type"@[1] == '-'
        && "--input-type"@[2] == 'i' && "--input-type"@[3] == 'n' && "--input-type"@[4] == 'p'
        && "--input-type"@[5] == 'u' && "--input-type"@[6] == 't' && "--input-type"@[7] == '-'
        && "--input-type"@[8] == 't' && "--input-type"@[9] == 'y' && "--input-type"@[10] == 'p'
        && "--input-type"@[11] == 'e');
    reveal_strlit("--loader");
    assert("--loader"@.len() == 8 && "--loader"@[0] == '-' && "--loader"@[1] == '-'
        && "--loader"@[2] == 'l' && "--loader"@[3] == 'o' && "--loader"@[4] == 'a' && "--loader"@[5]
        == 'd' && "--loader"@[6] == 'e' && "--loader"@[7] == 'r');
    reveal_strlit("--require");
    assert("--require"@.len() == 9 && "--require"@[0] == '-' && "--require"@[1] == '-'
        && "--require"@[2] == 'r' && "--require"@[3] == 'e' && "--require"@[4] == 'q'
        && "--require"@[5] == 'u' && "--require"@[6] == 'i' && "--require"@[7] == 'r'
        && "--require"@[8] == 'e');
    reveal_strlit("--title");
    assert("--title"@.len() == 7 && "--title"@[0] == '-' && "--title"@[1] == '-' && "--title"@[2]
        == 't' && "--title"@[3] == 'i' && "--title"@[4] == 't' && "--title"@[5] == 'l'
        && "--title"@[6] == 'e');
    let wants = |t: Seq<char>| node_wants(t);
    let checks = |t: Seq<char>| t == "--check"@;
    let script = |t: Seq<char>| node_script_flag(t);
    assert(role(words, 1, wants, true) == Role::Flag);
    assert(!script("--check"@) && !wants("--check"@)) by {
        if "--eval="@.is_prefix_of("--check"@) {
            assert("--check"@.subrange(0, 7)[2] == "--check"@[2]);
        }
        assert("--eval"@.push('=') =~= "--eval="@);
        assert("--print"@.push('=') =~= "--print="@);
        reveal_strlit("-C");
        assert("-C"@.len() == 2 && "-C"@[0] == '-' && "-C"@[1] == 'C');
        reveal_strlit("-r");
        assert("-r"@.len() == 2 && "-r"@[0] == '-' && "-r"@[1] == 'r');
        reveal_strlit("--conditions");
        assert("--conditions"@.len() == 12 && "--conditions"@[0] == '-' && "--conditions"@[1] == '-'
            && "--conditions"@[2] == 'c' && "--conditions"@[3] == 'o' && "--conditions"@[4] == 'n'
            && "--conditions"@[5] == 'd' && "--conditions"@[6] == 'i' && "--conditions"@[7] == 't'
            && "--conditions"@[8] == 'i' && "--conditions"@[9] == 'o' && "--conditions"@[10] == 'n'
            && "--conditions"@[11] == 's');
        reveal_strlit("--env-file");
        assert("--env-file"@.len() == 10 && "--env-file"@[0] == '-' && "--env-file"@[1] == '-'
            && "--env-file"@[2] == 'e' && "--env-file"@[3] == 'n' && "--env-file"@[4] == 'v'
            && "--env-file"@[5] == '-' && "--env-file"@[6] == 'f' && "--env-file"@[7] == 'i'
            && "--env-file"@[8] == 'l' && "--env-file"@[9] == 'e');
        reveal_strlit("--experimental-loader");
        assert("--experimental-loader"@.len() == 21 && "--experimental-loader"@[0] == '-'
            && "--experimental-loader"@[1] == '-' && "--experimental-loader"@[2] == 'e'
            && "--experimental-loader"@[3] == 'x' && "--experimental-loader"@[4] == 'p'
            && "--experimental-loader"@[5] == 'e' && "--experimental-loader"@[6] == 'r'
            && "--experimental-loader"@[7] == 'i' && "--experimental-loader"@[8] == 'm'
            && "--experimental-loader"@[9] == 'e' && "--experimental-loader"@[10] == 'n'
            && "--experimental-loader"@[11] == 't' && "--experimental-loader"@[12] == 'a'
            && "--experimental-loader"@[13] == 'l' && "--experimental-loader"@[14] == '-'
            && "--experimental-loader"@[15] == 'l' && "--experimental-loader"@[16] == 'o'
            && "--experimental-loader"@[17] == 'a' && "--experimental-loader"@[18] == 'd'
            && "--experimental-loader"@[19] == 'e' && "--experimental-loader"@[20] == 'r');
        reveal_strlit("--import");
        assert("--import"@.len() == 8 && "--import"@[0] == '-' && "--import"@[1] == '-'
            && "--import"@[2] == 'i' && "--import"@[3] == 'm' && "--import"@[4] == 'p'
            && "--import"@[5] == 'o' && "--import"@[6] == 'r' && "--import"@[7] == 't');
        reveal_strlit("--input-type");
        assert("--input-type"@.len() == 12 && "--input-type"@[0] == '-' && "--input-type"@[1] == '-'
            && "--input-type"@[2] == 'i' && "--input-type"@[3] == 'n' && "--input-type"@[4] == 'p'
            && "--input-type"@[5] == 'u' && "--input-type"@[6] == 't' && "--input-type"@[7] == '-'
            && "--input-type"@[8] == 't' && "--input-type"@[9] == 'y' && "--input-type"@[10] == 'p'
            && "--input-type"@[11] == 'e');
        reveal_strlit("--loader");
        assert("--loader"@.len() == 8 && "--loader"@[0] == '-' && "--loader"@[1] == '-'
            && "--loader"@[2] == 'l' && "--loader"@[3] == 'o' && "--loader"@[4] == 'a'
            && "--loader"@[5] == 'd' && "--loader"@[6] == 'e' && "--loader"@[7] == 'r');
        reveal_strlit("--require");
        assert("--require"@.len() == 9 && "--require"@[0] == '-' && "--require"@[1] == '-'
            && "--require"@[2] == 'r' && "--require"@[3] == 'e' && "--require"@[4] == 'q'
            && "--require"@[5] == 'u' && "--require"@[6] == 'i' && "--require"@[7] == 'r'
            && "--require"@[8] == 'e');
        reveal_strlit("--title");
        assert("--title"@.len() == 7 && "--title"@[0] == '-' && "--title"@[1] == '-'
            && "--title"@[2] == 't' && "--title"@[3] == 'i' && "--title"@[4] == 't' && "--title"@[5]
            == 'l' && "--title"@[6] == 'e');
    }
    let t = words[1];
    assert("--eval"@.push('=') =~= "--eval="@);
    assert("--print"@.push('=') =~= "--print="@);
    if "--eval="@.is_prefix_of(t) {
        assert(t.subrange(0, 7)[2] == t[2] && t.subrange(0, 7)[3] == t[3]);
    }
    if "--print="@.is_prefix_of(t) {
        assert(t.subrange(0, 8)[2] == t[2]);
    }
    assert(wants(words[1]));
    assert(is_flag(words[1]));
    assert(!script(words[1]));
    assert(role(words, 2, wants, true) == Role::Argument);
    assert(role(words, 3, wants, true) == Role::Flag);
    assert(checks(words[3]));
    if any_flag(words, wants, true, script) {
        let i = choose|i: int|
            1 <= i < words.len() && #[trigger] role(words, i, wants, true) == Role::Flag && script(
                words[i],
            );
        assert(i == 1 || i == 2 || i == 3);
    }
}

} // verus!
