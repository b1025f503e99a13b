//! The grammar of the language: from the text of a file to nested pairs.
//!
//! A file is a sequence of forms. A form is a list in parentheses of forms,
//! numbers, floats, strings and identifiers. Spaces separate; a semicolon
//! starts a comment that runs to the end of the line. A string runs from
//! one double quote to the next. Everything else is an atom that runs to
//! the next separator, parenthesis, quote or semicolon: a number where it
//! is digits behind an optional minus, a float where a point and more
//! digits follow, else an identifier.

use vstd::prelude::*;
use vstd::string::*;
use crate::parser::digit_of;
use crate::parser::digit_value;
use crate::parser::lemma_pair_view;
use crate::parser::pair_view;
use crate::parser::pair_views;
use crate::parser::Pair;
use crate::parser::PairView;
use crate::parser::ParseError;
use crate::parser::Rule;
use crate::parser::SimpleListParser;

verus! {

/// Whether `c` separates atoms without being one.
pub open spec fn is_space(c: char) -> bool {
    c == ' ' || c == '\t' || c == '\r' || c == '\n'
}

/// Whether `c` ends an atom.
pub open spec fn is_delimiter(c: char) -> bool {
    is_space(c) || c == '(' || c == ')' || c == '"' || c == ';'
}

/// The end of the atom that holds the position `pos`: the next delimiter,
/// or the end of the text.
pub open spec fn atom_end(s: Seq<char>, pos: nat) -> nat
    decreases s.len() - pos,
{
    if pos < s.len() && !is_delimiter(s[pos as int]) {
        atom_end(s, pos + 1)
    } else {
        pos
    }
}

/// The end of the line that holds the position `pos`: the next line feed,
/// or the end of the text.
pub open spec fn line_end(s: Seq<char>, pos: nat) -> nat
    decreases s.len() - pos,
{
    if pos < s.len() && s[pos as int] != '\n' {
        line_end(s, pos + 1)
    } else {
        pos
    }
}

/// The position of the next double quote at or behind `pos`, if there is one.
pub open spec fn quote_end(s: Seq<char>, pos: nat) -> Option<nat>
    decreases s.len() - pos,
{
    if pos >= s.len() {
        None
    } else if s[pos as int] == '"' {
        Some(pos)
    } else {
        quote_end(s, pos + 1)
    }
}

/// The end of the digits that start at `pos`, within the text before `end`.
pub open spec fn digits_end(s: Seq<char>, pos: nat, end: nat) -> nat
    decreases end - pos,
{
    if pos < end && pos < s.len() && digit_value(s[pos as int]) is Some {
        digits_end(s, pos + 1, end)
    } else {
        pos
    }
}

/// The rule of the atom from `from` to `to`: a number is digits behind an
/// optional minus; a float is a number, a point and more digits; all else
/// is an identifier.
pub open spec fn atom_rule(s: Seq<char>, from: nat, to: nat) -> Rule {
    let start = if from < to && from < s.len() && s[from as int] == '-' {
        from + 1
    } else {
        from
    };
    let whole = digits_end(s, start, to);
    if whole == start {
        Rule::Identifier
    } else if whole == to {
        Rule::Number
    } else if whole < s.len() && s[whole as int] == '.' {
        let fraction = digits_end(s, whole + 1, to);
        if fraction == to && fraction > whole + 1 {
            Rule::Float
        } else {
            Rule::Identifier
        }
    } else {
        Rule::Identifier
    }
}

/// A pair without pairs inside it.
pub open spec fn leaf(rule: Rule, text: Seq<char>) -> PairView {
    PairView { rule, text, inner: Seq::empty(), float_bits: 0 }
}

/// The pair of a list.
pub open spec fn list(inner: Seq<PairView>) -> PairView {
    PairView { rule: Rule::Sexp, text: Seq::empty(), inner, float_bits: 0 }
}

/// What was read, and where the reading stopped.
pub struct Read {
    pub items: Seq<PairView>,
    pub next: nat,
}

/// The items from `pos` on: inside a list up to its closing parenthesis,
/// outside any list up to the end of the text.
pub open spec fn read_items(s: Seq<char>, pos: nat, nested: bool) -> Result<Read, ParseError>
    decreases s.len() - pos,
{
    if pos >= s.len() {
        if nested {
            Err(ParseError::UnexpectedEnd)
        } else {
            Ok(Read { items: Seq::empty(), next: pos })
        }
    } else if is_space(s[pos as int]) {
        read_items(s, pos + 1, nested)
    } else if s[pos as int] == ';' {
        let end = line_end(s, pos + 1);
        if end <= pos || end > s.len() {
            Err(ParseError::UnexpectedEnd)
        } else {
            read_items(s, end, nested)
        }
    } else if s[pos as int] == ')' {
        if nested {
            Ok(Read { items: Seq::empty(), next: pos + 1 })
        } else {
            Err(ParseError::UnexpectedClose)
        }
    } else if s[pos as int] == '(' {
        match read_items(s, pos + 1, true) {
            Err(e) => Err(e),
            Ok(inner) => if inner.next <= pos || inner.next > s.len() {
                Err(ParseError::UnexpectedEnd)
            } else {
                match read_items(s, inner.next, nested) {
                    Err(e) => Err(e),
                    Ok(rest) => Ok(
                        Read { items: seq![list(inner.items)] + rest.items, next: rest.next },
                    ),
                }
            },
        }
    } else if s[pos as int] == '"' {
        match quote_end(s, pos + 1) {
            None => Err(ParseError::UnterminatedString),
            Some(q) => if q <= pos || q >= s.len() {
                Err(ParseError::UnterminatedString)
            } else {
                match read_items(s, q + 1, nested) {
                    Err(e) => Err(e),
                    Ok(rest) => Ok(
                        Read {
                            items: seq![leaf(Rule::String, s.subrange(pos as int, (q + 1) as int))]
                                + rest.items,
                            next: rest.next,
                        },
                    ),
                }
            },
        }
    } else {
        let end = atom_end(s, pos + 1);
        if end <= pos || end > s.len() {
            Err(ParseError::UnexpectedEnd)
        } else {
            match read_items(s, end, nested) {
                Err(e) => Err(e),
                Ok(rest) => Ok(
                    Read {
                        items: seq![leaf(atom_rule(s, pos, end), s.subrange(pos as int, end as int))]
                            + rest.items,
                        next: rest.next,
                    },
                ),
            }
        }
    }
}

/// The pairs of a file.
pub open spec fn read_file(s: Seq<char>) -> Result<Seq<PairView>, ParseError> {
    match read_items(s, 0, false) {
        Err(e) => Err(e),
        Ok(read) => Ok(read.items),
    }
}

/// Scans never run backwards, nor beyond the text.
pub proof fn lemma_scan_bounds(s: Seq<char>, pos: nat, end: nat)
    requires
        pos <= s.len(),
    ensures
        pos <= atom_end(s, pos) <= s.len(),
        pos <= line_end(s, pos) <= s.len(),
        quote_end(s, pos) matches Some(q) ==> pos <= q < s.len(),
        pos <= end ==> pos <= digits_end(s, pos, end) <= end,
    decreases s.len() - pos,
{
    if pos < s.len() {
        lemma_scan_bounds(s, pos + 1, end);
    }
}

/// Reading moves forward and stays within the text; a list that was read
/// to its end took at least its closing parenthesis. So none of the
/// checks in [`read_items`] that guard against a step backwards or beyond
/// the text ever fails.
pub proof fn law_read_progress(s: Seq<char>, pos: nat, nested: bool)
    requires
        pos <= s.len(),
    ensures
        read_items(s, pos, nested) matches Ok(r) ==> pos <= r.next <= s.len() && (nested ==> pos
            < r.next),
    decreases s.len() - pos,
{
    if pos < s.len() {
        let c = s[pos as int];
        if is_space(c) {
            law_read_progress(s, pos + 1, nested);
        } else if c == ';' {
            lemma_scan_bounds(s, pos + 1, 0);
            law_read_progress(s, line_end(s, pos + 1), nested);
        } else if c == ')' {
        } else if c == '(' {
            law_read_progress(s, pos + 1, true);
            if let Ok(inner) = read_items(s, pos + 1, true) {
                law_read_progress(s, inner.next, nested);
            }
        } else if c == '"' {
            lemma_scan_bounds(s, pos + 1, 0);
            if let Some(q) = quote_end(s, pos + 1) {
                law_read_progress(s, q + 1, nested);
            }
        } else {
            lemma_scan_bounds(s, pos + 1, 0);
            law_read_progress(s, atom_end(s, pos + 1), nested);
        }
    }
}

/// What the guards of [`read_items`] protect against does not happen: a
/// list ends behind where it starts and within the text, and so do
/// comments, strings and atoms.
pub proof fn law_read_guards(s: Seq<char>, pos: nat)
    requires
        pos < s.len(),
    ensures
        pos < line_end(s, pos + 1) <= s.len(),
        pos < atom_end(s, pos + 1) <= s.len(),
        quote_end(s, pos + 1) matches Some(q) ==> pos < q < s.len(),
        read_items(s, pos + 1, true) matches Ok(inner) ==> pos < inner.next <= s.len(),
{
    lemma_scan_bounds(s, pos + 1, 0);
    law_read_progress(s, pos + 1, true);
}

/// The characters of a string.
pub fn chars_of(s: &str) -> (r: Vec<char>)
    ensures
        r@ == s@,
{
    let mut v: Vec<char> = Vec::new();
    for c in it: s.chars()
        invariant
            v@ == it.seq().take(it.index() as int),
            it.seq() == s@,
    {
        v.push(c);
        assert(v@ =~= it.seq().take(it.index() + 1));
    }
    assert(v@ =~= s@);
    v
}

/// Whether `c` is a space.
pub fn space(c: char) -> (r: bool)
    ensures
        r == is_space(c),
{
    c == ' ' || c == '\t' || c == '\r' || c == '\n'
}

/// Whether `c` ends an atom.
pub fn delimiter(c: char) -> (r: bool)
    ensures
        r == is_delimiter(c),
{
    space(c) || c == '(' || c == ')' || c == '"' || c == ';'
}

/// Computes [`atom_end`].
pub fn find_atom_end(chars: &Vec<char>, pos: usize) -> (r: usize)
    requires
        pos <= chars@.len(),
    ensures
        r == atom_end(chars@, pos as nat),
        pos <= r <= chars@.len(),
{
    let mut i: usize = pos;
    while i < chars.len() && !delimiter(chars[i])
        invariant
            pos <= i <= chars@.len(),
            atom_end(chars@, pos as nat) == atom_end(chars@, i as nat),
        decreases chars@.len() - i,
    {
        i += 1;
    }
    i
}

/// Computes [`line_end`].
pub fn find_line_end(chars: &Vec<char>, pos: usize) -> (r: usize)
    requires
        pos <= chars@.len(),
    ensures
        r == line_end(chars@, pos as nat),
        pos <= r <= chars@.len(),
{
    let mut i: usize = pos;
    while i < chars.len() && chars[i] != '\n'
        invariant
            pos <= i <= chars@.len(),
            line_end(chars@, pos as nat) == line_end(chars@, i as nat),
        decreases chars@.len() - i,
    {
        i += 1;
    }
    i
}

/// Computes [`quote_end`].
pub fn find_quote_end(chars: &Vec<char>, pos: usize) -> (r: Option<usize>)
    requires
        pos <= chars@.len(),
    ensures
        match r {
            Some(q) => quote_end(chars@, pos as nat) == Some(q as nat) && pos <= q < chars@.len(),
            None => quote_end(chars@, pos as nat) is None,
        },
{
    let mut i: usize = pos;
    while i < chars.len()
        invariant
            pos <= i <= chars@.len(),
            quote_end(chars@, pos as nat) == quote_end(chars@, i as nat),
        decreases chars@.len() - i,
    {
        if chars[i] == '"' {
            return Some(i);
        }
        i += 1;
    }
    None
}

/// Computes [`digits_end`].
pub fn find_digits_end(chars: &Vec<char>, pos: usize, end: usize) -> (r: usize)
    requires
        pos <= end <= chars@.len(),
    ensures
        r == digits_end(chars@, pos as nat, end as nat),
        pos <= r <= end,
{
    let mut i: usize = pos;
    while i < end && digit_of(chars[i]).is_some()
        invariant
            pos <= i <= end <= chars@.len(),
            digits_end(chars@, pos as nat, end as nat) == digits_end(chars@, i as nat, end as nat),
        decreases end - i,
    {
        i += 1;
    }
    i
}

/// Computes [`atom_rule`].
pub fn find_atom_rule(chars: &Vec<char>, from: usize, to: usize) -> (r: Rule)
    requires
        from <= to <= chars@.len(),
    ensures
        r == atom_rule(chars@, from as nat, to as nat),
{
    let start = if from < to && chars[from] == '-' {
        from + 1
    } else {
        from
    };
    let whole = find_digits_end(chars, start, to);
    if whole == start {
        Rule::Identifier
    } else if whole == to {
        Rule::Number
    } else if chars[whole] == '.' {
        let fraction = find_digits_end(chars, whole + 1, to);
        if fraction == to && fraction > whole + 1 {
            Rule::Float
        } else {
            Rule::Identifier
        }
    } else {
        Rule::Identifier
    }
}

/// The items of `text` from `pos` on, with the position behind them.
pub(crate) fn read(text: &str, chars: &Vec<char>, pos: usize, nested: bool) -> (r: Result<
    (Vec<Pair>, usize),
    ParseError,
>)
    requires
        chars@ == text@,
        pos <= chars@.len(),
    ensures
        match r {
            Ok((items, next)) => read_items(text@, pos as nat, nested) == Ok::<Read, ParseError>(
                Read { items: pair_views(items@), next: next as nat },
            ) && pos <= next <= chars@.len() && (nested ==> pos < next),
            Err(e) => read_items(text@, pos as nat, nested) == Err::<Read, ParseError>(e),
        },
    decreases chars@.len() - pos,
{
    let ghost s = text@;
    let ghost whole = read_items(s, pos as nat, nested);
    let mut items: Vec<Pair> = Vec::new();
    let mut i: usize = pos;
    assert(pair_views(items@) =~= Seq::<PairView>::empty());
    loop
        invariant
            chars@ == s,
            s == text@,
            pos <= i <= chars@.len(),
            whole == read_items(s, pos as nat, nested),
            whole == (match read_items(s, i as nat, nested) {
                Ok(rest) => Ok::<Read, ParseError>(
                    Read { items: pair_views(items@) + rest.items, next: rest.next },
                ),
                Err(e) => Err::<Read, ParseError>(e),
            }),
        decreases chars@.len() - i,
    {
        let ghost done = pair_views(items@);
        if i >= chars.len() {
            if nested {
                return Err(ParseError::UnexpectedEnd);
            }
            assert(done + Seq::<PairView>::empty() =~= done);
            return Ok((items, i));
        }
        let c = chars[i];
        if space(c) {
            i += 1;
        } else if c == ';' {
            i = find_line_end(chars, i + 1);
        } else if c == ')' {
            if nested {
                assert(done + Seq::<PairView>::empty() =~= done);
                return Ok((items, i + 1));
            }
            return Err(ParseError::UnexpectedClose);
        } else if c == '(' {
            let (inner, next) = match read(text, chars, i + 1, true) {
                Ok(found) => found,
                Err(e) => {
                    return Err(e);
                },
            };
            let pair = Pair { rule: Rule::Sexp, text: String::new(), inner, float_bits: 0 };
            proof {
                lemma_pair_view(pair);
                assert(pair_view(pair) == list(pair_views(inner@)));
            }
            let ghost first = pair_view(pair);
            items.push(pair);
            proof {
                assert(pair_views(items@) =~= done.push(first));
                if let Ok(rest) = read_items(s, next as nat, nested) {
                    assert(done + (seq![first] + rest.items) =~= done.push(first) + rest.items);
                }
            }
            i = next;
        } else if c == '"' {
            let q = match find_quote_end(chars, i + 1) {
                Some(q) => q,
                None => {
                    return Err(ParseError::UnterminatedString);
                },
            };
            let pair = Pair {
                rule: Rule::String,
                text: String::from_str(text.substring_char(i, q + 1)),
                inner: Vec::new(),
                float_bits: 0,
            };
            proof {
                lemma_pair_view(pair);
                assert(pair_views(pair.inner@) =~= Seq::<PairView>::empty());
                assert(pair_view(pair) == leaf(Rule::String, s.subrange(i as int, q + 1)));
            }
            let ghost first = pair_view(pair);
            items.push(pair);
            proof {
                assert(pair_views(items@) =~= done.push(first));
                if let Ok(rest) = read_items(s, (q + 1) as nat, nested) {
                    assert(done + (seq![first] + rest.items) =~= done.push(first) + rest.items);
                }
            }
            i = q + 1;
        } else {
            let end = find_atom_end(chars, i + 1);
            let rule = find_atom_rule(chars, i, end);
            let pair = Pair {
                rule,
                text: String::from_str(text.substring_char(i, end)),
                inner: Vec::new(),
                float_bits: 0,
            };
            proof {
                lemma_pair_view(pair);
                assert(pair_views(pair.inner@) =~= Seq::<PairView>::empty());
                assert(pair_view(pair) == leaf(rule, s.subrange(i as int, end as int)));
            }
            let ghost first = pair_view(pair);
            items.push(pair);
            proof {
                assert(pair_views(items@) =~= done.push(first));
                if let Ok(rest) = read_items(s, end as nat, nested) {
                    assert(done + (seq![first] + rest.items) =~= done.push(first) + rest.items);
                }
            }
            i = end;
        }
    }
}

impl SimpleListParser {
    /// The pairs of the file whose text is `input`.
    pub fn parse(input: &str) -> (r: Result<Vec<Pair>, ParseError>)
        ensures
            match r {
                Ok(pairs) => read_file(input@) == Ok::<Seq<PairView>, ParseError>(
                    pair_views(pairs@),
                ),
                Err(e) => read_file(input@) == Err::<Seq<PairView>, ParseError>(e),
            },
    {
        let chars = chars_of(input);
        match read(input, &chars, 0, false) {
            Ok((items, next)) => Ok(items),
            Err(e) => Err(e),
        }
    }
}

} // verus!
