//! Shell command lines: splitting a pipeline of simple commands into its stages.

use crate::lines::joined;
use crate::text::{chars_of, is_blank, is_white, lemma_trimmed, opt_texts, texts, trim, trimmed};
use vstd::prelude::*;
use vstd::string::*;

verus! {

// ---- Pipelines ---------------------------------------------------------------------------------

/// The quotation that a position of a command line stands in.
pub enum Quote {
    Bare,
    Single,
    Double,
}

/// A piece of a command line: text of a stage, or the bar between two stages.
pub enum Unit {
    Text(Seq<char>),
    Bar,
}

/// A line break, which no accepted command holds.
pub open spec fn is_line_break(c: char) -> bool {
    c == '\n' || c == '\r'
}

/// An operator that chains or redirects commands when it stands outside quotes.
pub open spec fn is_operator(c: char) -> bool {
    c == ';' || c == '&' || c == '>' || c == '<'
}

/// The command begins with something that is refused whatever the quotation: a line break, a back
/// quote or a command substitution.
pub open spec fn begins_refused(s: Seq<char>) -> bool {
    is_line_break(s[0]) || s[0] == '`' || (s[0] == '$' && s.len() > 1 && s[1] == '(')
}

/// The quotation after a character that is not escaped.
pub open spec fn quote_after(quote: Quote, c: char) -> Quote {
    match quote {
        Quote::Bare => if c == '\'' {
            Quote::Single
        } else if c == '"' {
            Quote::Double
        } else {
            Quote::Bare
        },
        Quote::Single => if c == '\'' {
            Quote::Bare
        } else {
            Quote::Single
        },
        Quote::Double => if c == '"' {
            Quote::Bare
        } else {
            Quote::Double
        },
    }
}

/// `front` before the units of the rest, if the rest has any.
pub open spec fn prefixed(front: Seq<Unit>, rest: Option<Seq<Unit>>) -> Option<Seq<Unit>> {
    match rest {
        Some(units) => Some(front + units),
        None => None,
    }
}

/// The units of a command line that begins in the given quotation. `None` where the command is
/// more than a pipeline of simple commands: a line break, a substitution, an operator outside
/// quotes, an open quotation or a backslash at the end.
pub open spec fn units(s: Seq<char>, quote: Quote) -> Option<Seq<Unit>>
    decreases s.len(),
{
    if s.len() == 0 {
        if quote is Bare {
            Some(Seq::empty())
        } else {
            None
        }
    } else if begins_refused(s) {
        None
    } else if s[0] == '\\' && !(quote is Single) {
        if s.len() < 2 || is_line_break(s[1]) {
            None
        } else {
            prefixed(seq![Unit::Text(s.take(2))], units(s.skip(2), quote))
        }
    } else if quote is Bare && is_operator(s[0]) {
        None
    } else if quote is Bare && s[0] == '|' {
        if s.len() > 1 && s[1] == '|' {
            None
        } else {
            prefixed(seq![Unit::Bar], units(s.skip(1), quote))
        }
    } else {
        prefixed(seq![Unit::Text(s.take(1))], units(s.skip(1), quote_after(quote, s[0])))
    }
}

/// The texts between the bars.
pub open spec fn stages(us: Seq<Unit>) -> Seq<Seq<char>>
    decreases us.len(),
{
    if us.len() == 0 {
        seq![Seq::empty()]
    } else {
        let front = stages(us.drop_last());
        match us.last() {
            Unit::Bar => front.push(Seq::empty()),
            Unit::Text(t) => front.drop_last().push(front.last() + t),
        }
    }
}

/// Every text without the white space around it.
pub open spec fn all_trimmed(list: Seq<Seq<char>>) -> Seq<Seq<char>> {
    Seq::new(list.len(), |i: int| trimmed(list[i]))
}

/// No text is blank.
pub open spec fn none_blank(list: Seq<Seq<char>>) -> bool {
    forall|i: int| 0 <= i < list.len() ==> trimmed(#[trigger] list[i]).len() > 0
}

/// The stages of a pipeline of simple commands, trimmed. `None` where the command is more than
/// that, or a stage is blank.
pub open spec fn pipeline(command: Seq<char>) -> Option<Seq<Seq<char>>> {
    match units(command, Quote::Bare) {
        Some(us) => if none_blank(stages(us)) {
            Some(all_trimmed(stages(us)))
        } else {
            None
        },
        None => None,
    }
}

proof fn lemma_stages_nonempty(us: Seq<Unit>)
    ensures
        stages(us).len() > 0,
    decreases us.len(),
{
    if us.len() > 0 {
        lemma_stages_nonempty(us.drop_last());
    }
}

/// What stands before a bar is not changed by what comes after it.
proof fn lemma_stages_before_bar(us: Seq<Unit>, rest: Seq<Unit>, k: int)
    requires
        0 <= k < stages(us).len(),
    ensures
        stages(us).len() < stages(us.push(Unit::Bar) + rest).len(),
        stages(us.push(Unit::Bar) + rest)[k] == stages(us)[k],
    decreases rest.len(),
{
    let whole = us.push(Unit::Bar) + rest;
    if rest.len() == 0 {
        assert(whole.drop_last() == us);
    } else {
        lemma_stages_before_bar(us, rest.drop_last(), k);
        assert(whole.drop_last() == us.push(Unit::Bar) + rest.drop_last());
    }
}

proof fn lemma_prefixed(front: Seq<Unit>, next: Unit, rest: Option<Seq<Unit>>)
    ensures
        prefixed(front, prefixed(seq![next], rest)) == prefixed(front.push(next), rest),
{
    if let Some(us) = rest {
        assert(front + (seq![next] + us) == front.push(next) + us);
    }
}

/// Splits a pipeline of simple commands into its stages.
pub fn split_shell_pipeline(command: &str) -> (r: Option<Vec<String>>)
    ensures
        opt_texts(r) == pipeline(command@),
{
    let x = chars_of(command);
    let n = x.len();
    let mut segments: Vec<String> = Vec::new();
    let mut current: String = String::new();
    let mut quote: Quote = Quote::Bare;
    let mut i: usize = 0;
    let ghost mut done: Seq<Unit> = Seq::empty();
    let ghost mut raw: Seq<Seq<char>> = Seq::empty();
    assert(x@.skip(0) == x@);
    assert(prefixed(done, units(x@, quote)) == units(x@, quote)) by {
        if let Some(us) = units(x@, quote) {
            assert(done + us == us);
        }
    }
    assert(stages(done) == raw.push(current@));
    while i < n
        invariant
            i <= n,
            n == x@.len(),
            x@ == command@,
            prefixed(done, units(x@.skip(i as int), quote)) == units(x@, Quote::Bare),
            stages(done) == raw.push(current@),
            none_blank(raw),
            texts(segments@) == all_trimmed(raw),
        decreases n - i,
    {
        let ch = x[i];
        let ghost rest = x@.skip(i as int);
        assert(rest[0] == ch);
        assert(rest.len() == n - i);
        assert(i + 1 < n ==> rest[1] == x@[i + 1]);
        if ch == '\n' || ch == '\r' || ch == '`' {
            return None;
        }
        if ch == '$' && i + 1 < n && x[i + 1] == '(' {
            return None;
        }
        let single = matches!(quote, Quote::Single);
        let bare = matches!(quote, Quote::Bare);
        if ch == '\\' && !single {
            if i + 1 >= n {
                return None;
            }
            let escaped = x[i + 1];
            if escaped == '\n' || escaped == '\r' {
                return None;
            }
            proof {
                let unit = Unit::Text(rest.take(2));
                lemma_prefixed(done, unit, units(rest.skip(2), quote));
                assert(rest.skip(2) == x@.skip(i + 2));
                assert(rest.take(2) == seq![ch, escaped]);
                assert(done.push(unit).drop_last() == done);
                assert(raw.push(current@).drop_last() == raw);
                assert(current@.push(ch).push(escaped) == current@ + rest.take(2));
                done = done.push(unit);
            }
            current.push(ch);
            current.push(escaped);
            i = i + 2;
            continue;
        }
        if bare && (ch == ';' || ch == '&' || ch == '>' || ch == '<') {
            return None;
        }
        assert(rest.skip(1) == x@.skip(i + 1));
        if bare && ch == '|' {
            if i + 1 < n && x[i + 1] == '|' {
                return None;
            }
            let ghost here = done;
            proof {
                lemma_prefixed(done, Unit::Bar, units(rest.skip(1), quote));
                done = done.push(Unit::Bar);
                assert(done.drop_last() == here);
            }
            if is_blank(current.as_str()) {
                proof {
                    if let Some(us) = units(x@, Quote::Bare) {
                        let tail = units(rest.skip(1), quote)->0;
                        assert(us == here.push(Unit::Bar) + tail);
                        lemma_stages_before_bar(here, tail, raw.len() as int);
                        assert(trimmed(stages(us)[raw.len() as int]).len() == 0);
                    }
                }
                return None;
            }
            let piece = trim(current.as_str());
            let ghost before = segments@;
            segments.push(piece);
            proof {
                assert(texts(segments@) == texts(before).push(piece@));
                raw = raw.push(current@);
                assert(all_trimmed(raw) == texts(segments@));
            }
            current = String::new();
            i = i + 1;
        } else {
            proof {
                let unit = Unit::Text(rest.take(1));
                lemma_prefixed(done, unit, units(rest.skip(1), quote_after(quote, ch)));
                assert(rest.take(1) == seq![ch]);
                assert(done.push(unit).drop_last() == done);
                assert(raw.push(current@).drop_last() == raw);
                assert(current@.push(ch) == current@ + rest.take(1));
                done = done.push(unit);
            }
            current.push(ch);
            quote =
            match quote {
                Quote::Bare => if ch == '\'' {
                    Quote::Single
                } else if ch == '"' {
                    Quote::Double
                } else {
                    Quote::Bare
                },
                Quote::Single => if ch == '\'' {
                    Quote::Bare
                } else {
                    Quote::Single
                },
                Quote::Double => if ch == '"' {
                    Quote::Bare
                } else {
                    Quote::Double
                },
            };
            i = i + 1;
        }
    }
    assert(x@.skip(i as int).len() == 0);
    if !matches!(quote, Quote::Bare) {
        return None;
    }
    assert(units(x@, Quote::Bare) == Some(done)) by {
        assert(done + Seq::<Unit>::empty() == done);
    }
    if is_blank(current.as_str()) {
        assert(trimmed(stages(done)[raw.len() as int]).len() == 0);
        return None;
    }
    let piece = trim(current.as_str());
    let ghost before = segments@;
    segments.push(piece);
    assert(texts(segments@) == texts(before).push(piece@));
    assert(all_trimmed(stages(done)) == texts(segments@));
    Some(segments)
}

// ---- Laws --------------------------------------------------------------------------------------

/// The text that units stand for.
pub open spec fn spelled(us: Seq<Unit>) -> Seq<char>
    decreases us.len(),
{
    if us.len() == 0 {
        Seq::empty()
    } else {
        spelled(us.drop_last()) + match us.last() {
            Unit::Text(t) => t,
            Unit::Bar => seq!['|'],
        }
    }
}

proof fn lemma_spelled_front(u: Unit, us: Seq<Unit>)
    ensures
        spelled(seq![u] + us) == spelled(seq![u]) + spelled(us),
    decreases us.len(),
{
    if us.len() == 0 {
        assert(seq![u] + us == seq![u]);
        assert(spelled(us).len() == 0);
        assert(spelled(seq![u]) + spelled(us) == spelled(seq![u]));
    } else {
        lemma_spelled_front(u, us.drop_last());
        assert((seq![u] + us).drop_last() == seq![u] + us.drop_last());
    }
}

proof fn lemma_units_spell(s: Seq<char>, quote: Quote)
    requires
        units(s, quote) is Some,
    ensures
        spelled(units(s, quote)->0) == s,
        forall|i: int| 0 <= i < s.len() ==> !is_line_break(#[trigger] s[i]),
    decreases s.len(),
{
    reveal_with_fuel(spelled, 2);
    if s.len() == 0 {
    } else if s[0] == '\\' && !(quote is Single) {
        lemma_units_spell(s.skip(2), quote);
        lemma_spelled_front(Unit::Text(s.take(2)), units(s.skip(2), quote)->0);
        assert(seq![Unit::Text(s.take(2))].drop_last().len() == 0);
        assert(s == s.take(2) + s.skip(2));
        assert forall|i: int| 0 <= i < s.len() implies !is_line_break(#[trigger] s[i]) by {
            if i >= 2 {
                assert(s[i] == s.skip(2)[i - 2]);
            }
        }
    } else {
        let next = if quote is Bare && s[0] == '|' {
            quote
        } else {
            quote_after(quote, s[0])
        };
        let unit = if quote is Bare && s[0] == '|' {
            Unit::Bar
        } else {
            Unit::Text(s.take(1))
        };
        lemma_units_spell(s.skip(1), next);
        lemma_spelled_front(unit, units(s.skip(1), next)->0);
        assert(seq![unit].drop_last().len() == 0);
        assert(s.take(1) == seq![s[0]]);
        assert(s == s.take(1) + s.skip(1));
        assert forall|i: int| 0 <= i < s.len() implies !is_line_break(#[trigger] s[i]) by {
            if i >= 1 {
                assert(s[i] == s.skip(1)[i - 1]);
            }
        }
    }
}

proof fn lemma_stages_join(us: Seq<Unit>)
    ensures
        joined(stages(us), seq!['|']) == spelled(us),
    decreases us.len(),
{
    lemma_stages_nonempty(us);
    if us.len() > 0 {
        let front = stages(us.drop_last());
        lemma_stages_nonempty(us.drop_last());
        lemma_stages_join(us.drop_last());
        match us.last() {
            Unit::Bar => {
                assert(front.push(Seq::empty()).drop_last() == front);
                assert(joined(front, seq!['|']) + seq!['|'] + Seq::<char>::empty() == joined(
                    front,
                    seq!['|'],
                ) + seq!['|']);
            },
            Unit::Text(t) => {
                let longer = front.drop_last().push(front.last() + t);
                assert(longer.drop_last() == front.drop_last());
                if front.len() > 1 {
                    let head = joined(front.drop_last(), seq!['|']) + seq!['|'];
                    assert(head + (front.last() + t) == head + front.last() + t);
                }
            },
        }
    }
}

/// A pipeline loses nothing of its command: the stages, before they are trimmed, joined by bars
/// are the command again. No accepted command holds a line break.
pub proof fn law_pipeline_is_command(command: Seq<char>)
    requires
        pipeline(command) is Some,
    ensures
        joined(stages(units(command, Quote::Bare)->0), seq!['|']) == command,
        pipeline(command)->0 == all_trimmed(stages(units(command, Quote::Bare)->0)),
        forall|i: int| 0 <= i < command.len() ==> !is_line_break(#[trigger] command[i]),
{
    lemma_units_spell(command, Quote::Bare);
    lemma_stages_join(units(command, Quote::Bare)->0);
}

/// A pipeline has a stage, and no stage is blank or has white space around it.
pub proof fn law_stages_are_commands(command: Seq<char>)
    requires
        pipeline(command) is Some,
    ensures
        pipeline(command)->0.len() > 0,
        forall|i: int|
            0 <= i < pipeline(command)->0.len() ==> {
                let stage = #[trigger] pipeline(command)->0[i];
                stage.len() > 0 && !is_white(stage[0]) && !is_white(stage.last())
            },
{
    let raw = stages(units(command, Quote::Bare)->0);
    lemma_stages_nonempty(units(command, Quote::Bare)->0);
    assert forall|i: int| 0 <= i < pipeline(command)->0.len() implies {
        let stage = #[trigger] pipeline(command)->0[i];
        stage.len() > 0 && !is_white(stage[0]) && !is_white(stage.last())
    } by {
        assert(trimmed(raw[i]).len() > 0);
        lemma_trimmed(raw[i]);
    }
}

/// An empty command is no pipeline.
pub proof fn lemma_empty_command()
    ensures
        pipeline(Seq::empty()) is None,
{
    let none = Seq::<Unit>::empty();
    assert(units(Seq::<char>::empty(), Quote::Bare) == Some(none));
    assert(stages(none)[0] == Seq::<char>::empty());
    assert(trimmed(stages(none)[0]).len() == 0);
}

// ---- Pipelines put together --------------------------------------------------------------------

/// The command has no backslash.
pub open spec fn no_backslash(command: Seq<char>) -> bool {
    !command.contains('\\')
}

/// A command line that is complete can be followed by anything that begins neither a substitution
/// nor a chain: the units follow each other.
proof fn lemma_units_concat(a: Seq<char>, c: Seq<char>, quote: Quote)
    requires
        units(a, quote) is Some,
        c.len() == 0 || (c[0] != '(' && c[0] != '|'),
    ensures
        units(a + c, quote) == prefixed(units(a, quote)->0, units(c, Quote::Bare)),
    decreases a.len(),
{
    let s = a + c;
    if a.len() == 0 {
        assert(s == c);
        if let Some(us) = units(c, Quote::Bare) {
            assert(Seq::<Unit>::empty() + us == us);
        }
    } else if a[0] == '\\' && !(quote is Single) {
        let rest = a.skip(2);
        lemma_units_concat(rest, c, quote);
        assert(s.skip(2) == rest + c);
        assert(s.take(2) == a.take(2));
        lemma_prefixed_chain(
            Unit::Text(a.take(2)),
            units(rest, quote)->0,
            units(c, Quote::Bare),
        );
    } else {
        let bar = quote is Bare && a[0] == '|';
        let next = if bar {
            quote
        } else {
            quote_after(quote, a[0])
        };
        let unit = if bar {
            Unit::Bar
        } else {
            Unit::Text(a.take(1))
        };
        let rest = a.skip(1);
        assert(s[0] == a[0]);
        assert(s.len() > 1 ==> s[1] == (if a.len() > 1 {
            a[1]
        } else {
            c[0]
        }));
        lemma_units_concat(rest, c, next);
        assert(s.skip(1) == rest + c);
        assert(s.take(1) == a.take(1));
        lemma_prefixed_chain(unit, units(rest, next)->0, units(c, Quote::Bare));
    }
}

proof fn lemma_prefixed_chain(unit: Unit, us: Seq<Unit>, rest: Option<Seq<Unit>>)
    ensures
        prefixed(seq![unit], prefixed(us, rest)) == prefixed(seq![unit] + us, rest),
{
    if let Some(more) = rest {
        assert(seq![unit] + (us + more) == seq![unit] + us + more);
    }
}

/// Stages on both sides of a bar stay what they are.
proof fn lemma_stages_around_bar(us: Seq<Unit>, vs: Seq<Unit>)
    ensures
        stages(us.push(Unit::Bar) + vs) == stages(us) + stages(vs),
    decreases vs.len(),
{
    let whole = us.push(Unit::Bar) + vs;
    if vs.len() == 0 {
        assert(whole == us.push(Unit::Bar));
        assert(whole.drop_last() == us);
        assert(stages(us).push(Seq::empty()) == stages(us) + seq![Seq::<char>::empty()]);
    } else {
        lemma_stages_around_bar(us, vs.drop_last());
        lemma_stages_nonempty(vs.drop_last());
        assert(whole.drop_last() == us.push(Unit::Bar) + vs.drop_last());
        let front = stages(vs.drop_last());
        match vs.last() {
            Unit::Bar => {
                assert((stages(us) + front).push(Seq::empty()) == stages(us) + front.push(
                    Seq::empty(),
                ));
            },
            Unit::Text(t) => {
                assert((stages(us) + front).drop_last() == stages(us) + front.drop_last());
                assert((stages(us) + front).last() == front.last());
                assert((stages(us) + front.drop_last()).push(front.last() + t) == stages(us)
                    + front.drop_last().push(front.last() + t));
            },
        }
    }
}

/// A text at the beginning belongs to the first stage.
proof fn lemma_stages_text_first(t: Seq<char>, us: Seq<Unit>)
    ensures
        stages(us).len() > 0,
        stages(seq![Unit::Text(t)] + us) == stages(us).update(0, t + stages(us)[0]),
    decreases us.len(),
{
    let whole = seq![Unit::Text(t)] + us;
    lemma_stages_nonempty(us);
    if us.len() == 0 {
        let none = Seq::<Unit>::empty();
        assert(whole.drop_last() == none);
        assert(whole.last() == Unit::Text(t));
        assert(us == none);
        let empty = Seq::<char>::empty();
        assert(stages(none) == seq![empty]);
        assert(empty + t == t + empty);
        assert(seq![empty].drop_last().push(empty + t) == seq![empty].update(0, t + empty));
    } else {
        lemma_stages_text_first(t, us.drop_last());
        assert(whole.drop_last() == seq![Unit::Text(t)] + us.drop_last());
        let front = stages(us.drop_last());
        let longer = front.update(0, t + front[0]);
        match us.last() {
            Unit::Bar => {
                assert(longer.push(Seq::empty()) == front.push(Seq::empty()).update(
                    0,
                    t + front[0],
                ));
            },
            Unit::Text(x) => {
                if front.len() == 1 {
                    assert((t + front[0]) + x == t + (front[0] + x));
                }
                assert(longer.drop_last().push(longer.last() + x) == front.drop_last().push(
                    front.last() + x,
                ).update(0, t + front.drop_last().push(front.last() + x)[0]));
            },
        }
    }
}

/// White space in front is trimmed away.
proof fn lemma_trimmed_front(c: char, s: Seq<char>)
    requires
        is_white(c),
    ensures
        trimmed(seq![c] + s) == trimmed(s),
{
    assert((seq![c] + s).skip(1) == s);
}

/// White space behind is trimmed away.
proof fn lemma_trimmed_back(s: Seq<char>, c: char)
    requires
        is_white(c),
    ensures
        trimmed(s.push(c)) == trimmed(s),
    decreases s.len(),
{
    let longer = s.push(c);
    if s.len() == 0 {
        assert(longer.skip(1) == s);
    } else if is_white(s[0]) {
        lemma_trimmed_back(s.skip(1), c);
        assert(longer.skip(1) == s.skip(1).push(c));
    } else {
        assert(crate::text::trimmed_start(longer) == longer);
        assert(longer.drop_last() == s);
    }
}

/// A blank in front of a stage or behind it makes no difference to a pipeline.
proof fn lemma_padded(list: Seq<Seq<char>>, i: int, other: Seq<char>)
    requires
        0 <= i < list.len(),
        trimmed(other) == trimmed(list[i]),
    ensures
        all_trimmed(list.update(i, other)) == all_trimmed(list),
        none_blank(list.update(i, other)) == none_blank(list),
{
    let next = list.update(i, other);
    assert(all_trimmed(next) =~= all_trimmed(list));
    assert forall|k: int| 0 <= k < list.len() implies trimmed(#[trigger] next[k]) == trimmed(
        list[k],
    ) by {}
    if none_blank(list) {
        assert forall|k: int| 0 <= k < next.len() implies trimmed(#[trigger] next[k]).len()
            > 0 by {
            assert(trimmed(list[k]).len() > 0);
        }
    }
    if none_blank(next) {
        assert forall|k: int| 0 <= k < list.len() implies trimmed(#[trigger] list[k]).len()
            > 0 by {
            assert(trimmed(next[k]).len() > 0);
        }
    }
}

/// Two pipelines with a bar between them are one: its stages are those of the first, then those of
/// the second.
pub proof fn law_pipelines_join(a: Seq<char>, b: Seq<char>)
    requires
        pipeline(a) is Some,
        pipeline(b) is Some,
    ensures
        pipeline(a + " | "@ + b) == Some(pipeline(a)->0 + pipeline(b)->0),
{
    reveal_strlit(" | ");
    let ua = units(a, Quote::Bare)->0;
    let ub = units(b, Quote::Bare)->0;
    let blank = seq![' '];
    let gap = Unit::Text(blank);
    let c = " | "@ + b;
    assert(a + " | "@ + b == a + c);
    lemma_units_concat(a, c, Quote::Bare);
    // The bar with a blank on either side, then the second pipeline.
    let after_bar = blank + b;
    assert(after_bar.skip(1) == b);
    assert(after_bar.take(1) == blank);
    assert(units(after_bar, Quote::Bare) == Some(seq![gap] + ub));
    let from_bar = seq!['|'] + after_bar;
    assert(from_bar.skip(1) == after_bar);
    assert(units(from_bar, Quote::Bare) == Some(seq![Unit::Bar] + (seq![gap] + ub)));
    assert(c == blank + from_bar);
    assert(c.skip(1) == from_bar);
    assert(c.take(1) == blank);
    assert(units(c, Quote::Bare) == Some(seq![gap] + (seq![Unit::Bar] + (seq![gap] + ub))));
    let us = units(a + c, Quote::Bare)->0;
    assert(us == ua.push(gap).push(Unit::Bar) + (seq![gap] + ub));
    lemma_stages_around_bar(ua.push(gap), seq![gap] + ub);
    lemma_stages_nonempty(ua);
    let sa = stages(ua);
    let sb = stages(ub);
    lemma_stages_text_first(blank, ub);
    assert(ua.push(gap).drop_last() == ua);
    let last = sa.len() - 1;
    assert(stages(ua.push(gap)) == sa.update(last, sa[last] + blank));
    assert(sa[last] + blank == sa[last].push(' '));
    lemma_trimmed_back(sa[last], ' ');
    lemma_trimmed_front(' ', sb[0]);
    lemma_padded(sa, last, sa[last] + blank);
    lemma_padded(sb, 0, blank + sb[0]);
    let left = sa.update(last, sa[last] + blank);
    let right = sb.update(0, blank + sb[0]);
    assert(stages(us) == left + right);
    assert(none_blank(left + right)) by {
        assert forall|k: int| 0 <= k < (left + right).len() implies trimmed(
            #[trigger] (left + right)[k],
        ).len() > 0 by {
            if k < left.len() {
                assert(trimmed(left[k]).len() > 0);
            } else {
                assert(trimmed(right[k - left.len()]).len() > 0);
            }
        }
    }
    assert(all_trimmed(left + right) =~= all_trimmed(left) + all_trimmed(right));
}

/// White space before a command makes no difference to it.
proof fn lemma_pipeline_trimmed_start(s: Seq<char>)
    requires
        pipeline(s) is Some,
    ensures
        pipeline(crate::text::trimmed_start(s)) == pipeline(s),
    decreases s.len(),
{
    if s.len() > 0 && is_white(s[0]) {
        let rest = s.skip(1);
        let us = units(rest, Quote::Bare)->0;
        assert(units(s, Quote::Bare) == Some(seq![Unit::Text(s.take(1))] + us));
        lemma_stages_text_first(s.take(1), us);
        assert(s.take(1) == seq![s[0]]);
        lemma_trimmed_front(s[0], stages(us)[0]);
        lemma_padded(stages(us), 0, s.take(1) + stages(us)[0]);
        lemma_pipeline_trimmed_start(rest);
    }
}

/// A blank at the end of a command without backslashes stands outside quotes.
proof fn lemma_units_blank_last(front: Seq<char>, c: char, quote: Quote)
    requires
        units(front.push(c), quote) is Some,
        is_white(c),
        no_backslash(front),
    ensures
        units(front, quote) is Some,
        units(front.push(c), quote)->0 == units(front, quote)->0.push(Unit::Text(seq![c])),
    decreases front.len(),
{
    let s = front.push(c);
    if front.len() == 0 {
        reveal_with_fuel(units, 2);
        assert(s.skip(1).len() == 0);
        assert(s.take(1) == seq![c]);
        assert(s[0] == c);
        assert(quote_after(quote, c) == quote);
        assert(quote is Bare);
        assert(seq![Unit::Text(seq![c])] + Seq::<Unit>::empty() == Seq::<Unit>::empty().push(
            Unit::Text(seq![c]),
        ));
    } else {
        assert(front.contains(front[0]));
        let bar = quote is Bare && front[0] == '|';
        let next = if bar {
            quote
        } else {
            quote_after(quote, front[0])
        };
        let unit = if bar {
            Unit::Bar
        } else {
            Unit::Text(front.take(1))
        };
        let rest = front.skip(1);
        assert(s.skip(1) == rest.push(c));
        assert(s.take(1) == front.take(1));
        assert(front.len() > 1 ==> s[1] == front[1]);
        assert(no_backslash(rest)) by {
            assert forall|i: int| 0 <= i < rest.len() implies rest[i] != '\\' by {
                assert(front.contains(front[i + 1]));
            }
        }
        lemma_units_blank_last(rest, c, next);
        let inner = units(rest, next)->0;
        assert(seq![unit] + inner.push(Unit::Text(seq![c])) == (seq![unit] + inner).push(
            Unit::Text(seq![c]),
        ));
    }
}

/// White space behind a command without backslashes makes no difference to it.
proof fn lemma_pipeline_trimmed_end(s: Seq<char>)
    requires
        pipeline(s) is Some,
        no_backslash(s),
    ensures
        pipeline(crate::text::trimmed_end(s)) == pipeline(s),
    decreases s.len(),
{
    if s.len() > 0 && is_white(s.last()) {
        let front = s.drop_last();
        let c = s.last();
        assert(front.push(c) == s);
        lemma_no_backslash_part(s, 0, s.len() - 1);
        assert(s.subrange(0, s.len() - 1) == front);
        lemma_units_blank_last(front, c, Quote::Bare);
        let us = units(front, Quote::Bare)->0;
        let unit = Unit::Text(seq![c]);
        lemma_stages_nonempty(us);
        assert(us.push(unit).drop_last() == us);
        let list = stages(us);
        let last = list.len() - 1;
        assert(stages(us.push(unit)) == list.update(last, list[last] + seq![c]));
        assert(list[last] + seq![c] == list[last].push(c));
        lemma_trimmed_back(list[last], c);
        lemma_padded(list, last, list[last] + seq![c]);
        lemma_pipeline_trimmed_end(front);
    }
}

proof fn lemma_no_backslash_part(s: Seq<char>, i: int, j: int)
    requires
        no_backslash(s),
        0 <= i <= j <= s.len(),
    ensures
        no_backslash(s.subrange(i, j)),
{
    let part = s.subrange(i, j);
    assert forall|k: int| 0 <= k < part.len() implies part[k] != '\\' by {
        assert(s.contains(s[i + k]));
    }
}

proof fn lemma_no_backslash_start(s: Seq<char>)
    requires
        no_backslash(s),
    ensures
        no_backslash(crate::text::trimmed_start(s)),
    decreases s.len(),
{
    if s.len() > 0 && is_white(s[0]) {
        lemma_no_backslash_part(s, 1, s.len() as int);
        assert(s.subrange(1, s.len() as int) == s.skip(1));
        lemma_no_backslash_start(s.skip(1));
    }
}

/// White space around a command without backslashes makes no difference to it.
pub proof fn law_trimming_keeps_pipelines(command: Seq<char>)
    requires
        pipeline(command) is Some,
        no_backslash(command),
    ensures
        pipeline(trimmed(command)) == pipeline(command),
{
    lemma_pipeline_trimmed_start(command);
    lemma_no_backslash_start(command);
    lemma_pipeline_trimmed_end(crate::text::trimmed_start(command));
}

/// Every stage, as it stands in the command, is a command line of one stage.
proof fn lemma_stage_alone(s: Seq<char>, quote: Quote, i: int)
    requires
        units(s, quote) is Some,
        0 <= i < stages(units(s, quote)->0).len(),
    ensures
        ({
            let stage = stages(units(s, quote)->0)[i];
            let q = if i == 0 {
                quote
            } else {
                Quote::Bare
            };
            &&& units(stage, q) is Some
            &&& stages(units(stage, q)->0) == seq![stage]
            &&& i == 0 && stage.len() > 0 ==> s.len() > 0 && stage[0] == s[0]
            &&& forall|k: int|
                0 <= k < stage.len() ==> #[trigger] s.contains(stage[k])
        }),
    decreases s.len(),
{
    let us = units(s, quote)->0;
    let stage = stages(us)[i];
    if s.len() == 0 {
        assert(us.len() == 0);
        assert(stage == Seq::<char>::empty());
        assert(stages(us) == seq![stage]);
        assert(stage == s);
    } else if s[0] == '\\' && !(quote is Single) {
        lemma_stage_with_text(s, 2, quote, quote, i);
    } else if quote is Bare && s[0] == '|' {
        let rest = s.skip(1);
        let more = units(rest, quote)->0;
        let none = Seq::<Unit>::empty();
        assert(us == none.push(Unit::Bar) + more);
        lemma_stages_around_bar(none, more);
        assert(stages(none) == seq![Seq::<char>::empty()]);
        if i == 0 {
            assert(stage == Seq::<char>::empty());
            assert(units(stage, Quote::Bare) == Some(none));
            assert(stages(none) == seq![stage]);
        } else {
            assert(stage == stages(more)[i - 1]);
            lemma_stage_alone(rest, quote, i - 1);
            assert forall|k: int| 0 <= k < stage.len() implies #[trigger] s.contains(
                stage[k],
            ) by {
                lemma_contained_in_skip(s, 1, stage[k]);
            }
        }
    } else {
        lemma_stage_with_text(s, 1, quote, quote_after(quote, s[0]), i);
    }
}

proof fn lemma_contained_in_skip(s: Seq<char>, n: int, c: char)
    requires
        0 <= n <= s.len(),
        s.skip(n).contains(c),
    ensures
        s.contains(c),
{
    let k = choose|k: int| 0 <= k < s.skip(n).len() && s.skip(n)[k] == c;
    assert(s[n + k] == c);
}

/// The step of `lemma_stage_alone` over the first `n` characters, which are one text.
proof fn lemma_stage_with_text(s: Seq<char>, n: int, quote: Quote, next: Quote, i: int)
    requires
        units(s, quote) is Some,
        0 <= i < stages(units(s, quote)->0).len(),
        s.len() >= n,
        n == 1 && !(s[0] == '\\' && !(quote is Single)) && !(quote is Bare && s[0] == '|') && next
            == quote_after(quote, s[0]) || n == 2 && s[0] == '\\' && !(quote is Single) && next
            == quote,
    ensures
        ({
            let stage = stages(units(s, quote)->0)[i];
            let q = if i == 0 {
                quote
            } else {
                Quote::Bare
            };
            &&& units(stage, q) is Some
            &&& stages(units(stage, q)->0) == seq![stage]
            &&& i == 0 && stage.len() > 0 ==> s.len() > 0 && stage[0] == s[0]
            &&& forall|k: int|
                0 <= k < stage.len() ==> #[trigger] s.contains(stage[k])
        }),
    decreases s.len(), 0int,
{
    let us = units(s, quote)->0;
    let t = s.take(n);
    let rest = s.skip(n);
    let more = units(rest, next)->0;
    assert(us == seq![Unit::Text(t)] + more);
    lemma_stages_text_first(t, more);
    let inner = stages(more);
    let stage = stages(us)[i];
    lemma_stage_alone(rest, next, i);
    if i == 0 {
        let f = inner[0];
        assert(stage == t + f);
        assert(stage.skip(n) == f);
        assert(stage.take(n) == t);
        assert(f.len() > 0 ==> f[0] == s[n]);
        let alone = units(f, next)->0;
        assert(units(stage, quote) == Some(seq![Unit::Text(t)] + alone));
        lemma_stages_text_first(t, alone);
        assert(seq![f].update(0, t + f) == seq![stage]);
    } else {
        assert(stage == inner[i]);
    }
    assert forall|k: int| 0 <= k < stage.len() implies #[trigger] s.contains(stage[k]) by {
        if i == 0 && k < n {
            assert(stage[k] == s[k]);
        } else if i == 0 {
            assert(stage[k] == inner[0][k - n]);
            lemma_contained_in_skip(s, n, inner[0][k - n]);
        } else {
            lemma_contained_in_skip(s, n, stage[k]);
        }
    }
}

/// Splitting a stage of a command without backslashes gives that stage alone, and splitting the
/// stages with bars between them gives them back.
pub proof fn law_stages_split_again(command: Seq<char>)
    requires
        pipeline(command) is Some,
        no_backslash(command),
    ensures
        forall|i: int|
            0 <= i < pipeline(command)->0.len() ==> pipeline(#[trigger] pipeline(command)->0[i])
                == Some(seq![pipeline(command)->0[i]]),
        pipeline(joined(pipeline(command)->0, " | "@)) == pipeline(command),
{
    let list = pipeline(command)->0;
    let us = units(command, Quote::Bare)->0;
    lemma_stages_nonempty(us);
    assert forall|i: int| 0 <= i < list.len() implies pipeline(#[trigger] list[i]) == Some(
        seq![list[i]],
    ) by {
        let stage = stages(us)[i];
        lemma_stage_alone(command, Quote::Bare, i);
        assert(trimmed(stage).len() > 0);
        assert(stages(units(stage, Quote::Bare)->0) == seq![stage]);
        assert(none_blank(seq![stage]));
        assert(all_trimmed(seq![stage]) =~= seq![list[i]]);
        assert(no_backslash(stage)) by {
            if stage.contains('\\') {
                let k = choose|k: int| 0 <= k < stage.len() && stage[k] == '\\';
                assert(command.contains(stage[k]));
            }
        }
        law_trimming_keeps_pipelines(stage);
    }
    lemma_joined_pipelines(list);
}

proof fn lemma_joined_pipelines(list: Seq<Seq<char>>)
    requires
        list.len() > 0,
        forall|i: int|
            0 <= i < list.len() ==> pipeline(#[trigger] list[i]) == Some(seq![list[i]]),
    ensures
        pipeline(joined(list, " | "@)) == Some(list),
    decreases list.len(),
{
    if list.len() == 1 {
        assert(list == seq![list[0]]);
    } else {
        let front = list.drop_last();
        lemma_joined_pipelines(front);
        assert(pipeline(list.last()) == Some(seq![list.last()])) by {
            assert(list.last() == list[list.len() - 1]);
        }
        law_pipelines_join(joined(front, " | "@), list.last());
        assert(front + seq![list.last()] == list);
    }
}

// ---- What a command line comes to --------------------------------------------------------------

/// The text means nothing but itself in the quotation: it ends no quotation, and holds nothing that
/// is refused, splits or escapes there.
pub open spec fn plain_in(s: Seq<char>, quote: Quote) -> bool {
    forall|i: int|
        0 <= i < s.len() ==> {
            &&& #[trigger] s[i] != '\n'
            &&& s[i] != '\r'
            &&& s[i] != '`'
            &&& s[i] == '$' ==> i + 1 < s.len() && s[i + 1] != '('
            &&& match quote {
                Quote::Bare => s[i] != '\\' && s[i] != '\'' && s[i] != '"' && s[i] != ';'
                    && s[i] != '&'
                    && s[i] != '<' && s[i] != '>' && s[i] != '|',
                Quote::Single => s[i] != '\'',
                Quote::Double => s[i] != '\\' && s[i] != '"',
            }
        }
}

/// The units are text: no bar stands between them.
spec fn all_text(us: Seq<Unit>) -> bool {
    forall|i: int| 0 <= i < us.len() ==> #[trigger] us[i] is Text
}

proof fn lemma_plain_runs(s: Seq<char>, rest: Seq<char>, quote: Quote) -> (us: Seq<Unit>)
    requires
        plain_in(s, quote),
    ensures
        all_text(us),
        units(s + rest, quote) == prefixed(us, units(rest, quote)),
    decreases s.len(),
{
    let whole = s + rest;
    if s.len() == 0 {
        assert(whole =~= rest);
        if let Some(more) = units(rest, quote) {
            assert(Seq::<Unit>::empty() + more =~= more);
        }
        Seq::empty()
    } else {
        let tail = s.skip(1);
        assert(whole[0] == s[0]);
        assert(plain_in(tail, quote)) by {
            assert forall|i: int| 0 <= i < tail.len() implies {
                &&& #[trigger] tail[i] != '\n'
                &&& tail[i] != '\r'
                &&& tail[i] != '`'
                &&& tail[i] == '$' ==> i + 1 < tail.len() && tail[i + 1] != '('
                &&& match quote {
                    Quote::Bare => tail[i] != '\\' && tail[i] != '\'' && tail[i] != '"'
                        && tail[i] != ';'
                        && tail[i] != '&' && tail[i] != '<' && tail[i] != '>' && tail[i] != '|',
                    Quote::Single => tail[i] != '\'',
                    Quote::Double => tail[i] != '\\' && tail[i] != '"',
                }
            } by {
                assert(tail[i] == s[i + 1]);
            }
        }
        assert(s[0] == '$' ==> whole[1] == s[1]);
        let more = lemma_plain_runs(tail, rest, quote);
        assert(whole.skip(1) =~= tail + rest);
        assert(quote_after(quote, s[0]) == quote);
        let unit = Unit::Text(whole.take(1));
        lemma_prefixed_chain(unit, more, units(rest, quote));
        seq![unit] + more
    }
}

proof fn lemma_text_is_one_stage(us: Seq<Unit>)
    requires
        all_text(us),
    ensures
        stages(us).len() == 1,
    decreases us.len(),
{
    if us.len() > 0 {
        let front = us.drop_last();
        assert(all_text(front)) by {
            assert forall|i: int| 0 <= i < front.len() implies #[trigger] front[i] is Text by {
                assert(front[i] == us[i]);
            }
        }
        lemma_text_is_one_stage(front);
        assert(us[us.len() - 1] is Text);
    }
}

proof fn lemma_one_stage(command: Seq<char>, us: Seq<Unit>)
    requires
        units(command, Quote::Bare) == Some(us),
        all_text(us),
        !crate::text::blank(command),
    ensures
        pipeline(command) == Some(seq![trimmed(command)]),
{
    lemma_text_is_one_stage(us);
    lemma_units_spell(command, Quote::Bare);
    lemma_stages_join(us);
    let list = stages(us);
    assert(joined(list, seq!['|']) == list[0]);
    lemma_trimmed(command);
    assert(all_trimmed(list) =~= seq![trimmed(command)]);
}

/// A command without quotes, operators and the like is one stage: itself, without the white space
/// around it.
pub proof fn law_plain_commands_are_one_stage(command: Seq<char>)
    requires
        plain_in(command, Quote::Bare),
        !crate::text::blank(command),
    ensures
        pipeline(command) == Some(seq![trimmed(command)]),
{
    let us = lemma_plain_runs(command, Seq::empty(), Quote::Bare);
    assert(command + Seq::<char>::empty() =~= command);
    assert(units(Seq::<char>::empty(), Quote::Bare) == Some(Seq::<Unit>::empty()));
    assert(us + Seq::<Unit>::empty() =~= us);
    lemma_one_stage(command, us);
}

/// What stands between quotes stays in its stage, bars and operators too.
pub proof fn law_quoted_text_stays_together(
    a: Seq<char>,
    double: bool,
    quoted: Seq<char>,
    b: Seq<char>,
)
    requires
        plain_in(a, Quote::Bare),
        plain_in(
            quoted,
            if double {
                Quote::Double
            } else {
                Quote::Single
            },
        ),
        plain_in(b, Quote::Bare),
    ensures
        ({
            let mark = if double {
                '"'
            } else {
                '\''
            };
            let whole = a + (seq![mark] + (quoted + (seq![mark] + b)));
            pipeline(whole) == Some(seq![trimmed(whole)])
        }),
{
    let mark = if double {
        '"'
    } else {
        '\''
    };
    let inner = if double {
        Quote::Double
    } else {
        Quote::Single
    };
    let closing = seq![mark] + b;
    let opened = quoted + closing;
    let opening = seq![mark] + opened;
    let whole = a + opening;
    let none = Seq::<char>::empty();
    let last = lemma_plain_runs(b, none, Quote::Bare);
    assert(b + none =~= b);
    assert(units(none, Quote::Bare) == Some(Seq::<Unit>::empty()));
    assert(last + Seq::<Unit>::empty() =~= last);
    assert(closing.skip(1) =~= b);
    let close = Unit::Text(closing.take(1));
    assert(units(closing, inner) == Some(seq![close] + last));
    let middle = lemma_plain_runs(quoted, closing, inner);
    assert(opening.skip(1) =~= opened);
    let open = Unit::Text(opening.take(1));
    assert(units(opening, Quote::Bare) == Some(seq![open] + (middle + (seq![close] + last))));
    let first = lemma_plain_runs(a, opening, Quote::Bare);
    let us = first + (seq![open] + (middle + (seq![close] + last)));
    assert(units(whole, Quote::Bare) == Some(us));
    assert(all_text(us));
    assert(!crate::text::blank(whole)) by {
        assert(whole[a.len() as int] == mark);
        assert(!is_white(mark));
    }
    lemma_one_stage(whole, us);
}

/// A character behind a backslash stays in its stage, whatever it is, unless it is a line break.
pub proof fn law_escaped_characters_stay(a: Seq<char>, c: char, b: Seq<char>)
    requires
        plain_in(a, Quote::Bare),
        c != '\n',
        c != '\r',
        plain_in(b, Quote::Bare),
    ensures
        ({
            let whole = a + (seq!['\\', c] + b);
            pipeline(whole) == Some(seq![trimmed(whole)])
        }),
{
    let escaped = seq!['\\', c] + b;
    let whole = a + escaped;
    let none = Seq::<char>::empty();
    let last = lemma_plain_runs(b, none, Quote::Bare);
    assert(b + none =~= b);
    assert(units(none, Quote::Bare) == Some(Seq::<Unit>::empty()));
    assert(last + Seq::<Unit>::empty() =~= last);
    assert(escaped.skip(2) =~= b);
    let pair = Unit::Text(escaped.take(2));
    assert(units(escaped, Quote::Bare) == Some(seq![pair] + last));
    let first = lemma_plain_runs(a, escaped, Quote::Bare);
    let us = first + (seq![pair] + last);
    assert(all_text(us));
    assert(!crate::text::blank(whole)) by {
        assert(whole[a.len() as int] == '\\');
        assert(!is_white('\\'));
    }
    lemma_one_stage(whole, us);
}

/// An operator outside quotes is refused, and so is a back quote or a substitution, in quotes or
/// not.
pub proof fn law_operators_are_refused(
    a: Seq<char>,
    quoted: Seq<char>,
    c: char,
    d: char,
    b: Seq<char>,
)
    requires
        plain_in(a, Quote::Bare),
    ensures
        c == ';' || c == '&' || c == '<' || c == '>' || c == '`' ==> pipeline(a + (seq![c] + b))
            is None,
        (c == '|' && d == '|') || (c == '$' && d == '(') ==> pipeline(a + (seq![c, d] + b)) is None,
        plain_in(quoted, Quote::Double) && c == '`' ==> pipeline(
            a + (seq!['"'] + (quoted + (seq![c] + b))),
        ) is None,
        plain_in(quoted, Quote::Double) && c == '$' && d == '(' ==> pipeline(
            a + (seq!['"'] + (quoted + (seq![c, d] + b))),
        ) is None,
{
    let one = seq![c] + b;
    let two = seq![c, d] + b;
    let us = lemma_plain_runs(a, one, Quote::Bare);
    let vs = lemma_plain_runs(a, two, Quote::Bare);
    if plain_in(quoted, Quote::Double) {
        let inner_one = lemma_plain_runs(quoted, one, Quote::Double);
        let inner_two = lemma_plain_runs(quoted, two, Quote::Double);
        let open_one = seq!['"'] + (quoted + one);
        let open_two = seq!['"'] + (quoted + two);
        assert(open_one.skip(1) =~= quoted + one);
        assert(open_two.skip(1) =~= quoted + two);
        let xs = lemma_plain_runs(a, open_one, Quote::Bare);
        let ys = lemma_plain_runs(a, open_two, Quote::Bare);
    }
}

/// A quotation that is not closed, and a backslash at the end, are refused.
pub proof fn law_open_quotes_are_refused(a: Seq<char>, quoted: Seq<char>)
    requires
        plain_in(a, Quote::Bare),
    ensures
        plain_in(quoted, Quote::Single) ==> pipeline(a + (seq!['\''] + quoted)) is None,
        plain_in(quoted, Quote::Double) ==> pipeline(a + (seq!['"'] + quoted)) is None,
        pipeline(a + seq!['\\']) is None,
{
    let none = Seq::<char>::empty();
    assert(quoted + none =~= quoted);
    if plain_in(quoted, Quote::Single) {
        let open = seq!['\''] + quoted;
        assert(open.skip(1) =~= quoted);
        let inner = lemma_plain_runs(quoted, none, Quote::Single);
        let us = lemma_plain_runs(a, open, Quote::Bare);
    }
    if plain_in(quoted, Quote::Double) {
        let open = seq!['"'] + quoted;
        assert(open.skip(1) =~= quoted);
        let inner = lemma_plain_runs(quoted, none, Quote::Double);
        let us = lemma_plain_runs(a, open, Quote::Bare);
    }
    let end = lemma_plain_runs(a, seq!['\\'], Quote::Bare);
}

/// No command with a line break is accepted, wherever the line break stands; and no pipeline with a
/// blank stage is.
pub proof fn law_line_breaks_are_refused(command: Seq<char>, i: int, a: Seq<char>, b: Seq<char>)
    ensures
        0 <= i < command.len() && (command[i] == '\n' || command[i] == '\r') ==> pipeline(command)
            is None,
        plain_in(a, Quote::Bare) && plain_in(b, Quote::Bare) && (crate::text::blank(a)
            || crate::text::blank(b)) ==> pipeline(a + (seq!['|'] + b)) is None,
{
    if 0 <= i < command.len() && (command[i] == '\n' || command[i] == '\r') && pipeline(command)
        is Some {
        lemma_units_spell(command, Quote::Bare);
    }
    if plain_in(a, Quote::Bare) && plain_in(b, Quote::Bare) && (crate::text::blank(a)
        || crate::text::blank(b)) {
        let none = Seq::<char>::empty();
        let rest = seq!['|'] + b;
        let whole = a + rest;
        assert(rest.skip(1) =~= b);
        assert(a + none =~= a);
        assert(b + none =~= b);
        assert(units(none, Quote::Bare) == Some(Seq::<Unit>::empty()));
        let last = lemma_plain_runs(b, none, Quote::Bare);
        assert(last + Seq::<Unit>::empty() =~= last);
        let alone = lemma_plain_runs(a, none, Quote::Bare);
        assert(alone + Seq::<Unit>::empty() =~= alone);
        lemma_text_is_one_stage(alone);
        lemma_text_is_one_stage(last);
        lemma_units_spell(a, Quote::Bare);
        lemma_units_spell(b, Quote::Bare);
        lemma_stages_join(alone);
        lemma_stages_join(last);
        assert(stages(alone)[0] == a) by {
            assert(joined(stages(alone), seq!['|']) == stages(alone)[0]);
        }
        assert(stages(last)[0] == b) by {
            assert(joined(stages(last), seq!['|']) == stages(last)[0]);
        }
        if b.len() > 0 && b[0] == '|' {
            assert(false);
        }
        if pipeline(whole) is Some {
            let us = units(whole, Quote::Bare)->0;
            assert(units(rest, Quote::Bare) == Some(seq![Unit::Bar] + last));
            lemma_run_then_bar(a, rest, alone);
            assert(us =~= alone.push(Unit::Bar) + last);
            lemma_stages_around_bar(alone, last);
            let list = stages(us);
            assert(list[0] == a && list[1] == b);
            lemma_trimmed(a);
            lemma_trimmed(b);
            assert(trimmed(list[0]).len() > 0 && trimmed(list[1]).len() > 0);
        }
    }
}

proof fn lemma_run_then_bar(a: Seq<char>, rest: Seq<char>, us: Seq<Unit>)
    requires
        plain_in(a, Quote::Bare),
        units(a, Quote::Bare) == Some(us),
    ensures
        units(a + rest, Quote::Bare) == prefixed(us, units(rest, Quote::Bare)),
    decreases a.len(),
{
    let none = Seq::<char>::empty();
    let whole = a + rest;
    if a.len() == 0 {
        assert(whole =~= rest);
        if let Some(more) = units(rest, Quote::Bare) {
            assert(us + more =~= more);
        }
    } else {
        let tail = a.skip(1);
        assert(a[0] != '|');
        assert(plain_in(tail, Quote::Bare)) by {
            assert forall|i: int| 0 <= i < tail.len() implies {
                &&& #[trigger] tail[i] != '\n'
                &&& tail[i] != '\r'
                &&& tail[i] != '`'
                &&& tail[i] == '$' ==> i + 1 < tail.len() && tail[i + 1] != '('
                &&& tail[i] != '\\' && tail[i] != '\'' && tail[i] != '"' && tail[i] != ';'
                    && tail[i]
                    != '&' && tail[i] != '<' && tail[i] != '>' && tail[i] != '|'
            } by {
                assert(tail[i] == a[i + 1]);
            }
        }
        assert(whole.skip(1) =~= tail + rest);
        assert(whole[0] == a[0]);
        assert(a[0] == '$' ==> whole[1] == a[1]);
        let unit = Unit::Text(a.take(1));
        assert(whole.take(1) =~= a.take(1));
        let more = units(tail, Quote::Bare);
        assert(more is Some);
        lemma_run_then_bar(tail, rest, more->0);
        lemma_prefixed_chain(unit, more->0, units(rest, Quote::Bare));
        assert(us == seq![unit] + more->0);
    }
}

} // verus!
