//! From the token tree of a source file to syntax nodes.
//!
//! A grammar engine splits the text of a file into nested pairs, each with
//! the rule that matched and the text that it matched. The functions here
//! read such a tree and build the nodes that the emitter compiles.

use vstd::prelude::*;
use vstd::string::*;
use crate::node::Node;
use crate::node::Param;
use crate::node::Slot;
use crate::node::Tree;
use crate::node::lemma_tree_of;
use crate::node::slot_of;
use crate::node::slots_of;
use crate::node::tree_of;
use crate::node::trees_of;
use crate::text::str_eq;

verus! {

/// The rules of the grammar.
#[derive(Debug, Clone, Copy, PartialEq, Eq, Structural)]
pub enum Rule {
    File,
    Sexp,
    Identifier,
    Number,
    Float,
    String,
    EndOfInput,
}

/// A piece of source text with the rule that matched it and the pairs
/// inside it.
#[derive(Debug)]
pub struct Pair {
    pub rule: Rule,
    pub text: String,
    pub inner: Vec<Pair>,
    /// For a pair of the rule `Float`, the bit pattern of the number that
    /// the text denotes.
    pub float_bits: u32,
}

/// What a pair is, apart from how it is stored.
pub struct PairView {
    pub rule: Rule,
    pub text: Seq<char>,
    pub inner: Seq<PairView>,
    pub float_bits: u32,
}

/// The view of a pair.
pub open spec fn pair_view(pair: Pair) -> PairView
    decreases pair,
{
    PairView {
        rule: pair.rule,
        text: pair.text@,
        inner: Seq::new(
            pair.inner@.len(),
            |i: int|
                if 0 <= i < pair.inner@.len() {
                    pair_view(pair.inner@[i])
                } else {
                    PairView {
                        rule: Rule::File,
                        text: Seq::empty(),
                        inner: Seq::empty(),
                        float_bits: 0,
                    }
                },
        ),
        float_bits: pair.float_bits,
    }
}

/// The views of a sequence of pairs.
pub open spec fn pair_views(pairs: Seq<Pair>) -> Seq<PairView> {
    pairs.map_values(|p: Pair| pair_view(p))
}

impl View for Pair {
    type V = PairView;

    open spec fn view(&self) -> PairView {
        pair_view(*self)
    }
}

/// The view of a pair holds the views of the pairs inside it.
pub proof fn lemma_pair_view(pair: Pair)
    ensures
        pair_view(pair) == (PairView {
            rule: pair.rule,
            text: pair.text@,
            inner: pair_views(pair.inner@),
            float_bits: pair.float_bits,
        }),
{
    assert(pair_view(pair).inner =~= pair_views(pair.inner@));
}

/// Why a token tree is not a program.
#[derive(Debug, Clone, Copy, PartialEq, Eq, Structural)]
pub enum ParseError {
    /// A pair of a rule that cannot stand where it stands.
    UnexpectedRule,
    /// A form with too few elements.
    MissingElement,
    /// A number that is no decimal numeral of a 32-bit integer.
    InvalidNumber,
    /// A string without its quotes.
    InvalidString,
    /// The text ends inside a form.
    UnexpectedEnd,
    /// A closing parenthesis without an opening one.
    UnexpectedClose,
    /// The text ends inside a string.
    UnterminatedString,
}

/// The parser of the language: it splits the text of a file into the
/// nested pairs of its grammar.
pub struct SimpleListParser;

/// The value of a decimal digit.
pub open spec fn digit_value(c: char) -> Option<nat> {
    if c == '0' {
        Some(0)
    } else if c == '1' {
        Some(1)
    } else if c == '2' {
        Some(2)
    } else if c == '3' {
        Some(3)
    } else if c == '4' {
        Some(4)
    } else if c == '5' {
        Some(5)
    } else if c == '6' {
        Some(6)
    } else if c == '7' {
        Some(7)
    } else if c == '8' {
        Some(8)
    } else if c == '9' {
        Some(9)
    } else {
        None
    }
}

/// The number that a sequence of decimal digits denotes; `None` where one
/// of the characters is no digit.
pub open spec fn digits_value(s: Seq<char>) -> Option<nat>
    decreases s.len(),
{
    if s.len() == 0 {
        Some(0)
    } else {
        match (digits_value(s.drop_last()), digit_value(s.last())) {
            (Some(v), Some(d)) => Some(10 * v + d),
            _ => None,
        }
    }
}

/// The 32-bit integer that a numeral denotes: an optional sign, then at
/// least one digit; `None` where the text has another form or the number
/// does not fit.
pub open spec fn number_value(s: Seq<char>) -> Option<i32> {
    if s.len() == 0 {
        None
    } else {
        let signed = s[0] == '-' || s[0] == '+';
        let digits = if signed {
            s.subrange(1, s.len() as int)
        } else {
            s
        };
        if digits.len() == 0 {
            None
        } else {
            match digits_value(digits) {
                None => None,
                Some(v) => if s[0] == '-' {
                    if v <= 0x8000_0000 {
                        Some((0 - v) as i32)
                    } else {
                        None
                    }
                } else {
                    if v <= 0x7fff_ffff {
                        Some(v as i32)
                    } else {
                        None
                    }
                },
            }
        }
    }
}

/// An expression: a number, a string without its quotes, an identifier, or
/// a form in parentheses.
pub open spec fn l_expression(pair: Pair) -> Result<Tree, ParseError>
    decreases pair, 0nat,
{
    match pair.rule {
        Rule::Number => match number_value(pair.text@) {
            Some(i) => Ok(Tree::Integer(i)),
            None => Err(ParseError::InvalidNumber),
        },
        Rule::Float => Ok(Tree::Float(pair.float_bits)),
        Rule::Sexp => l_identifier(pair.inner@),
        Rule::Identifier => Ok(Tree::Identifier(pair.text@)),
        Rule::String => if pair.text@.len() >= 2 {
            Ok(Tree::String(pair.text@.subrange(1, pair.text@.len() - 1)))
        } else {
            Err(ParseError::InvalidString)
        },
        _ => Err(ParseError::UnexpectedRule),
    }
}

/// The elements of a form: a function where the first is `fun`, else a call.
pub open spec fn l_identifier(elements: Seq<Pair>) -> Result<Tree, ParseError>
    decreases elements, elements.len() + 2,
{
    if elements.len() == 0 {
        Err(ParseError::MissingElement)
    } else if elements[0].text@ == "fun"@ {
        l_function(elements)
    } else {
        l_function_call(elements)
    }
}

/// A function: `fun`, an optional name, the parameters, the body.
pub open spec fn l_function(elements: Seq<Pair>) -> Result<Tree, ParseError>
    decreases elements, elements.len() + 1,
{
    if elements.len() < 2 {
        Err(ParseError::MissingElement)
    } else {
        let named = elements[1].rule == Rule::Identifier;
        let start: nat = if named {
            2
        } else {
            1
        };
        if elements.len() <= start {
            Err(ParseError::MissingElement)
        } else {
            match l_parameters(elements[start as int].inner@, 0) {
                Err(e) => Err(e),
                Ok(params) => match l_expressions(elements, start + 1) {
                    Err(e) => Err(e),
                    Ok(body) => Ok(
                        Tree::Function {
                            name: if named {
                                elements[1].text@
                            } else {
                                Seq::empty()
                            },
                            params,
                            body,
                        },
                    ),
                },
            }
        }
    }
}

/// A call: the name, then the arguments.
pub open spec fn l_function_call(elements: Seq<Pair>) -> Result<Tree, ParseError>
    decreases elements, elements.len() + 1,
{
    if elements.len() == 0 {
        Err(ParseError::MissingElement)
    } else {
        match l_expressions(elements, 1) {
            Err(e) => Err(e),
            Ok(args) => Ok(Tree::Call { name: elements[0].text@, args }),
        }
    }
}

/// The expressions of `elements` from index `from` on.
pub open spec fn l_expressions(elements: Seq<Pair>, from: nat) -> Result<Seq<Tree>, ParseError>
    decreases elements, elements.len() - from,
{
    if from >= elements.len() {
        Ok(Seq::empty())
    } else {
        match l_expression(elements[from as int]) {
            Err(e) => Err(e),
            Ok(first) => match l_expressions(elements, from + 1) {
                Err(e) => Err(e),
                Ok(rest) => Ok(seq![first] + rest),
            },
        }
    }
}

/// One parameter: a bare name, or a name with its default value in
/// parentheses.
pub open spec fn l_parameter(pair: Pair) -> Result<Slot, ParseError>
    decreases pair, 1nat,
{
    if pair.rule == Rule::Sexp {
        if pair.inner@.len() < 2 {
            Err(ParseError::MissingElement)
        } else {
            match l_expression(pair.inner@[1]) {
                Err(e) => Err(e),
                Ok(d) => Ok(Slot { name: pair.inner@[0].text@, default_value: Some(d) }),
            }
        }
    } else {
        Ok(Slot { name: pair.text@, default_value: None })
    }
}

/// The parameters of `parameters` from index `from` on.
pub open spec fn l_parameters(parameters: Seq<Pair>, from: nat) -> Result<Seq<Slot>, ParseError>
    decreases parameters, parameters.len() - from,
{
    if from >= parameters.len() {
        Ok(Seq::empty())
    } else {
        match l_parameter(parameters[from as int]) {
            Err(e) => Err(e),
            Ok(first) => match l_parameters(parameters, from + 1) {
                Err(e) => Err(e),
                Ok(rest) => Ok(seq![first] + rest),
            },
        }
    }
}

/// A form at the top level of a file: its first element is an identifier.
pub open spec fn l_root_expression(pair: Pair) -> Result<Tree, ParseError>
    decreases pair, 1nat,
{
    if pair.inner@.len() == 0 {
        Err(ParseError::MissingElement)
    } else if pair.inner@[0].rule != Rule::Identifier {
        Err(ParseError::UnexpectedRule)
    } else {
        l_identifier(pair.inner@)
    }
}

/// The forms of a file from index `from` on. The end of the input is no form.
pub open spec fn l_block(pairs: Seq<Pair>, from: nat) -> Result<Seq<Tree>, ParseError>
    decreases pairs, pairs.len() - from,
{
    if from >= pairs.len() {
        Ok(Seq::empty())
    } else if pairs[from as int].rule == Rule::EndOfInput {
        l_block(pairs, from + 1)
    } else if pairs[from as int].rule == Rule::Sexp {
        match l_root_expression(pairs[from as int]) {
            Err(e) => Err(e),
            Ok(first) => match l_block(pairs, from + 1) {
                Err(e) => Err(e),
                Ok(rest) => Ok(seq![first] + rest),
            },
        }
    } else {
        Err(ParseError::UnexpectedRule)
    }
}

/// Whether what a function returned is what the grammar says: a node of the
/// same tree, or the same error.
pub open spec fn lowered(r: Result<Node, ParseError>, rule: Result<Tree, ParseError>) -> bool {
    match r {
        Ok(node) => rule == Ok::<Tree, ParseError>(tree_of(node)),
        Err(e) => rule == Err::<Tree, ParseError>(e),
    }
}

/// [`lowered`] for a list of nodes.
pub open spec fn lowered_all(r: Result<Vec<Node>, ParseError>, rule: Result<Seq<Tree>, ParseError>)
    -> bool {
    match r {
        Ok(nodes) => rule == Ok::<Seq<Tree>, ParseError>(trees_of(nodes@)),
        Err(e) => rule == Err::<Seq<Tree>, ParseError>(e),
    }
}

/// A longer numeral denotes no smaller number.
pub proof fn lemma_digits_grow(s: Seq<char>, n: int)
    requires
        0 <= n <= s.len(),
        digits_value(s) is Some,
    ensures
        digits_value(s.take(n)) is Some,
        digits_value(s.take(n)).unwrap() <= digits_value(s).unwrap(),
    decreases s.len() - n,
{
    if n == s.len() {
        assert(s.take(n) =~= s);
    } else {
        lemma_digits_grow(s, n + 1);
        assert(s.take(n + 1).drop_last() =~= s.take(n));
    }
}

/// A numeral with a character that is no digit denotes nothing, however it
/// goes on.
pub proof fn lemma_digits_fail(s: Seq<char>, n: int)
    requires
        0 <= n <= s.len(),
        digits_value(s.take(n)) is None,
    ensures
        digits_value(s) is None,
    decreases s.len() - n,
{
    if n == s.len() {
        assert(s.take(n) =~= s);
    } else {
        assert(s.take(n + 1).drop_last() =~= s.take(n));
        lemma_digits_fail(s, n + 1);
    }
}

/// The value of the digit `c`.
pub fn digit_of(c: char) -> (r: Option<u64>)
    ensures
        match r {
            Some(d) => digit_value(c) == Some(d as nat) && d < 10,
            None => digit_value(c) is None,
        },
{
    if c == '0' {
        Some(0)
    } else if c == '1' {
        Some(1)
    } else if c == '2' {
        Some(2)
    } else if c == '3' {
        Some(3)
    } else if c == '4' {
        Some(4)
    } else if c == '5' {
        Some(5)
    } else if c == '6' {
        Some(6)
    } else if c == '7' {
        Some(7)
    } else if c == '8' {
        Some(8)
    } else if c == '9' {
        Some(9)
    } else {
        None
    }
}

/// Computes [`number_value`].
pub fn parse_number(text: &str) -> (r: Option<i32>)
    ensures
        r == number_value(text@),
{
    let n = text.unicode_len();
    if n == 0 {
        return None;
    }
    let first = text.get_char(0);
    let negative = first == '-';
    let start: usize = if first == '-' || first == '+' {
        1
    } else {
        0
    };
    if start >= n {
        return None;
    }
    let ghost digits = text@.subrange(start as int, n as int);
    assert(start == 0 ==> digits =~= text@);
    let mut value: u64 = 0;
    let mut i: usize = start;
    assert(digits.take(0) =~= Seq::<char>::empty());
    while i < n
        invariant
            start <= i <= n,
            start < n,
            n == text@.len(),
            negative == (text@[0] == '-'),
            start == (if text@[0] == '-' || text@[0] == '+' {
                1int
            } else {
                0int
            }),
            digits == text@.subrange(start as int, n as int),
            start == 0 ==> digits == text@,
            digits_value(digits.take(i - start)) == Some(value as nat),
            value <= 0x8000_0000,
        decreases n - i,
    {
        let c = text.get_char(i);
        proof {
            let now = digits.take(i - start + 1);
            assert(now.drop_last() =~= digits.take(i - start));
            assert(now.last() == c);
        }
        match digit_of(c) {
            None => {
                proof {
                    lemma_digits_fail(digits, i - start + 1);
                }
                return None;
            },
            Some(d) => {
                let next = 10 * value + d;
                if next > 0x8000_0000 {
                    proof {
                        if digits_value(digits) is Some {
                            lemma_digits_grow(digits, i - start + 1);
                        }
                    }
                    return None;
                }
                value = next;
            },
        }
        i += 1;
    }
    assert(digits.take(i - start) =~= digits);
    if negative {
        if value == 0x8000_0000 {
            Some(i32::MIN)
        } else {
            Some(0 - (value as i32))
        }
    } else if value <= 0x7fff_ffff {
        Some(value as i32)
    } else {
        None
    }
}

/// The nodes of the forms of a file.
pub fn parse_block(pairs: &Vec<Pair>) -> (r: Result<Vec<Node>, ParseError>)
    ensures
        lowered_all(r, l_block(pairs@, 0)),
{
    let ghost whole = l_block(pairs@, 0);
    let mut nodes: Vec<Node> = Vec::new();
    let mut i: usize = 0;
    assert(trees_of(nodes@) =~= Seq::<Tree>::empty());
    while i < pairs.len()
        invariant
            i <= pairs.len(),
            whole == l_block(pairs@, 0),
            whole == (match l_block(pairs@, i as nat) {
                Ok(rest) => Ok::<Seq<Tree>, ParseError>(trees_of(nodes@) + rest),
                Err(e) => Err::<Seq<Tree>, ParseError>(e),
            }),
        decreases pairs.len() - i,
    {
        match pairs[i].rule {
            Rule::EndOfInput => {},
            Rule::Sexp => {
                let node = match parse_root_expression(&pairs[i]) {
                    Ok(n) => n,
                    Err(e) => {
                        return Err(e);
                    },
                };
                let ghost done = trees_of(nodes@);
                let ghost first = tree_of(node);
                nodes.push(node);
                proof {
                    assert(trees_of(nodes@) =~= done.push(first));
                    if let Ok(rest) = l_block(pairs@, (i + 1) as nat) {
                        assert(done + (seq![first] + rest) =~= done.push(first) + rest);
                    }
                }
            },
            _ => {
                return Err(ParseError::UnexpectedRule);
            },
        }
        i += 1;
    }
    assert(trees_of(nodes@) + Seq::<Tree>::empty() =~= trees_of(nodes@));
    Ok(nodes)
}

/// The node of a form at the top level of a file.
pub fn parse_root_expression(pair: &Pair) -> (r: Result<Node, ParseError>)
    ensures
        lowered(r, l_root_expression(*pair)),
{
    if pair.inner.len() == 0 {
        return Err(ParseError::MissingElement);
    }
    match pair.inner[0].rule {
        Rule::Identifier => parse_identifier(&pair.inner),
        _ => Err(ParseError::UnexpectedRule),
    }
}

/// The node of the elements of a form.
pub fn parse_identifier(elements: &Vec<Pair>) -> (r: Result<Node, ParseError>)
    ensures
        lowered(r, l_identifier(elements@)),
    decreases elements@, elements@.len() + 2,
{
    if elements.len() == 0 {
        return Err(ParseError::MissingElement);
    }
    if str_eq(elements[0].text.as_str(), "fun") {
        parse_function(elements)
    } else {
        parse_function_call(elements)
    }
}

/// The node of a function.
pub fn parse_function(elements: &Vec<Pair>) -> (r: Result<Node, ParseError>)
    ensures
        lowered(r, l_function(elements@)),
    decreases elements@, elements@.len() + 1,
{
    if elements.len() < 2 {
        return Err(ParseError::MissingElement);
    }
    let named = match elements[1].rule {
        Rule::Identifier => true,
        _ => false,
    };
    let start: usize = if named {
        2
    } else {
        1
    };
    if elements.len() <= start {
        return Err(ParseError::MissingElement);
    }
    let params = parse_parameters(&elements[start].inner)?;
    let body = parse_expressions(elements, start + 1)?;
    let name = if named {
        elements[1].text.clone()
    } else {
        String::new()
    };
    let node = Node::Function { name, params, body };
    proof {
        lemma_tree_of(node);
    }
    Ok(node)
}

/// The node of a call.
pub fn parse_function_call(elements: &Vec<Pair>) -> (r: Result<Node, ParseError>)
    ensures
        lowered(r, l_function_call(elements@)),
    decreases elements@, elements@.len() + 1,
{
    if elements.len() == 0 {
        return Err(ParseError::MissingElement);
    }
    let args = parse_expressions(elements, 1)?;
    let node = Node::Call { name: elements[0].text.clone(), args };
    proof {
        lemma_tree_of(node);
    }
    Ok(node)
}

/// The nodes of the expressions of `elements` from index `from` on.
pub fn parse_expressions(elements: &Vec<Pair>, from: usize) -> (r: Result<Vec<Node>, ParseError>)
    ensures
        lowered_all(r, l_expressions(elements@, from as nat)),
    decreases elements@, elements@.len() - from,
{
    let ghost whole = l_expressions(elements@, from as nat);
    let mut nodes: Vec<Node> = Vec::new();
    let mut i: usize = from;
    assert(trees_of(nodes@) =~= Seq::<Tree>::empty());
    while i < elements.len()
        invariant
            from <= i,
            whole == l_expressions(elements@, from as nat),
            whole == (match l_expressions(elements@, i as nat) {
                Ok(rest) => Ok::<Seq<Tree>, ParseError>(trees_of(nodes@) + rest),
                Err(e) => Err::<Seq<Tree>, ParseError>(e),
            }),
        decreases elements.len() - i,
    {
        let node = match parse_expression(&elements[i]) {
            Ok(n) => n,
            Err(e) => {
                return Err(e);
            },
        };
        let ghost done = trees_of(nodes@);
        let ghost first = tree_of(node);
        nodes.push(node);
        proof {
            assert(trees_of(nodes@) =~= done.push(first));
            if let Ok(rest) = l_expressions(elements@, (i + 1) as nat) {
                assert(done + (seq![first] + rest) =~= done.push(first) + rest);
            }
        }
        i += 1;
    }
    assert(trees_of(nodes@) + Seq::<Tree>::empty() =~= trees_of(nodes@));
    Ok(nodes)
}

/// The parameters of a function.
pub fn parse_parameters(parameters: &Vec<Pair>) -> (r: Result<Vec<Param>, ParseError>)
    ensures
        match r {
            Ok(params) => l_parameters(parameters@, 0) == Ok::<Seq<Slot>, ParseError>(
                slots_of(params@),
            ),
            Err(e) => l_parameters(parameters@, 0) == Err::<Seq<Slot>, ParseError>(e),
        },
    decreases parameters@, parameters@.len() + 1,
{
    let ghost whole = l_parameters(parameters@, 0);
    let mut params: Vec<Param> = Vec::new();
    let mut i: usize = 0;
    assert(slots_of(params@) =~= Seq::<Slot>::empty());
    while i < parameters.len()
        invariant
            i <= parameters.len(),
            whole == l_parameters(parameters@, 0),
            whole == (match l_parameters(parameters@, i as nat) {
                Ok(rest) => Ok::<Seq<Slot>, ParseError>(slots_of(params@) + rest),
                Err(e) => Err::<Seq<Slot>, ParseError>(e),
            }),
        decreases parameters.len() - i,
    {
        proof {
            reveal_with_fuel(l_parameters, 2);
        }
        let pair = &parameters[i];
        let param = match pair.rule {
            Rule::Sexp => {
                if pair.inner.len() < 2 {
                    return Err(ParseError::MissingElement);
                }
                let default = match parse_expression(&pair.inner[1]) {
                    Ok(d) => d,
                    Err(e) => {
                        return Err(e);
                    },
                };
                Param { name: pair.inner[0].text.clone(), default_value: Some(default) }
            },
            _ => Param { name: pair.text.clone(), default_value: None },
        };
        let ghost done = slots_of(params@);
        let ghost first = slot_of(param);
        params.push(param);
        proof {
            assert(slots_of(params@) =~= done.push(first));
            if let Ok(rest) = l_parameters(parameters@, (i + 1) as nat) {
                assert(done + (seq![first] + rest) =~= done.push(first) + rest);
            }
        }
        i += 1;
    }
    assert(slots_of(params@) + Seq::<Slot>::empty() =~= slots_of(params@));
    Ok(params)
}

/// The node of an expression.
pub fn parse_expression(pair: &Pair) -> (r: Result<Node, ParseError>)
    ensures
        lowered(r, l_expression(*pair)),
    decreases *pair, 0nat,
{
    match pair.rule {
        Rule::Number => match parse_number(pair.text.as_str()) {
            Some(i) => Ok(Node::Integer(i)),
            None => Err(ParseError::InvalidNumber),
        },
        Rule::Float => Ok(Node::Float(pair.float_bits)),
        Rule::Sexp => parse_identifier(&pair.inner),
        Rule::Identifier => Ok(Node::Identifier(pair.text.clone())),
        Rule::String => {
            let text = pair.text.as_str();
            let n = text.unicode_len();
            if n >= 2 {
                Ok(Node::String(String::from_str(text.substring_char(1, n - 1))))
            } else {
                Err(ParseError::InvalidString)
            }
        },
        _ => Err(ParseError::UnexpectedRule),
    }
}

} // verus!
