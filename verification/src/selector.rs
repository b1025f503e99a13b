//! Selectors: the dispatch keys that combine a name with an argument count.

use vstd::prelude::*;
use vstd::string::*;
use crate::text::str_eq;

verus! {

/// `n` placeholders separated by commas: nothing, `_`, `_,_`, ...
pub open spec fn placeholders(n: nat) -> Seq<char>
    decreases n,
{
    if n == 0 {
        Seq::empty()
    } else if n == 1 {
        seq!['_']
    } else {
        placeholders((n - 1) as nat) + seq![',', '_']
    }
}

/// The selector under which a function of `n` parameters is defined:
/// the name, then the placeholders in parentheses.
pub open spec fn plain_selector(name: Seq<char>, n: nat) -> Seq<char> {
    name + seq!['('] + placeholders(n) + seq![')']
}

/// The names that, called without arguments, are selectors by themselves.
pub open spec fn is_getter(name: Seq<char>) -> bool {
    name == "count"@ || name == "isdone"@ || name == "type"@ || name == "name"@ || name
        == "supertype"@
}

/// The selector that a call of `name` with `n` arguments dispatches on.
///
/// A getter without arguments is its bare name; beyond that, `isdone` is
/// spelled `isDone` and the argument-less `not` is the operator `!`.
pub open spec fn call_selector(name: Seq<char>, n: nat) -> Seq<char> {
    let s = if n == 0 && is_getter(name) {
        name
    } else {
        plain_selector(name, n)
    };
    if s == "isdone"@ {
        "isDone"@
    } else if s == "not()"@ {
        "!"@
    } else {
        s
    }
}

/// The decimal digit `d` as a character.
pub open spec fn digit(d: nat) -> char {
    if d == 0 {
        '0'
    } else if d == 1 {
        '1'
    } else if d == 2 {
        '2'
    } else if d == 3 {
        '3'
    } else if d == 4 {
        '4'
    } else if d == 5 {
        '5'
    } else if d == 6 {
        '6'
    } else if d == 7 {
        '7'
    } else if d == 8 {
        '8'
    } else {
        '9'
    }
}

/// The decimal numeral of `n`, without leading zeros.
pub open spec fn decimal(n: nat) -> Seq<char>
    decreases n,
{
    if n < 10 {
        seq![digit(n)]
    } else {
        decimal(n / 10).push(digit(n % 10))
    }
}

/// The name under which the closure with the given number is filed.
pub open spec fn closure_selector(id: nat) -> Seq<char> {
    "closure#"@ + decimal(id)
}

/// A numeral has at least one digit, and two where the number has two.
pub proof fn lemma_decimal_len(n: nat)
    ensures
        decimal(n).len() >= 1,
        n >= 10 ==> decimal(n).len() >= 2,
    decreases n,
{
    if n >= 10 {
        lemma_decimal_len(n / 10);
    }
}

/// Numbers with the same numeral are the same.
pub proof fn lemma_decimal_injective(a: nat, b: nat)
    requires
        decimal(a) == decimal(b),
    ensures
        a == b,
    decreases a,
{
    lemma_decimal_len(a);
    lemma_decimal_len(b);
    if a < 10 {
        assert(decimal(a)[0] == digit(a));
        assert(decimal(b)[0] == digit(b));
    } else {
        let x = decimal(a / 10);
        let y = decimal(b / 10);
        assert(x.push(digit(a % 10)).last() == digit(a % 10));
        assert(y.push(digit(b % 10)).last() == digit(b % 10));
        assert(x.push(digit(a % 10)).drop_last() =~= x);
        assert(y.push(digit(b % 10)).drop_last() =~= y);
        lemma_decimal_injective(a / 10, b / 10);
    }
}

/// A numeral holds digits only.
pub proof fn lemma_decimal_digits(n: nat, i: int)
    requires
        0 <= i < decimal(n).len(),
    ensures
        decimal(n)[i] != '(',
    decreases n,
{
    if n >= 10 {
        if i < decimal(n / 10).len() {
            lemma_decimal_digits(n / 10, i);
        }
    }
}

/// Closures with different numbers have different names.
pub proof fn law_closure_names_differ(a: nat, b: nat)
    requires
        a != b,
    ensures
        closure_selector(a) != closure_selector(b),
{
    let head = "closure#"@;
    if closure_selector(a) == closure_selector(b) {
        assert(decimal(a) =~= closure_selector(a).subrange(
            head.len() as int,
            closure_selector(a).len() as int,
        ));
        assert(decimal(b) =~= closure_selector(b).subrange(
            head.len() as int,
            closure_selector(b).len() as int,
        ));
        lemma_decimal_injective(a, b);
    }
}

/// The name of a closure is the selector of no declared function: it holds
/// no parenthesis.
pub proof fn law_closure_name_is_no_selector(id: nat, name: Seq<char>, n: nat)
    ensures
        closure_selector(id) != plain_selector(name, n),
{
    reveal_strlit("closure#");
    let c = closure_selector(id);
    let p = plain_selector(name, n);
    let at = name.len() as int;
    assert(p[at] == '(');
    if c == p {
        let head = "closure#"@;
        assert(p.len() > at);
        assert(c.len() == head.len() + decimal(id).len());
        if at < head.len() {
            assert(c[at] == head[at]);
        } else {
            assert(c[at] == decimal(id)[at - head.len()]);
            lemma_decimal_digits(id, at - head.len());
        }
    }
}

/// Builds [`plain_selector`].
pub fn selector(name: &str, n: usize) -> (r: String)
    ensures
        r@ == plain_selector(name@, n as nat),
{
    proof {
        reveal_strlit("(");
        reveal_strlit(")");
        reveal_strlit("_");
        reveal_strlit(",_");
    }
    let mut s = String::from_str(name);
    s.append("(");
    let mut i: usize = 0;
    while i < n
        invariant
            i <= n,
            s@ == name@ + seq!['('] + placeholders(i as nat),
            "_"@ == seq!['_'],
            ",_"@ == seq![',', '_'],
        decreases n - i,
    {
        if i == 0 {
            s.append("_");
            assert(s@ =~= name@ + seq!['('] + placeholders(1));
        } else {
            s.append(",_");
            assert(s@ =~= name@ + seq!['('] + placeholders((i + 1) as nat));
        }
        i += 1;
    }
    s.append(")");
    s
}

/// Whether `name` is one of the getters.
pub fn getter(name: &str) -> (r: bool)
    ensures
        r == is_getter(name@),
{
    str_eq(name, "count") || str_eq(name, "isdone") || str_eq(name, "type") || str_eq(
        name,
        "name",
    ) || str_eq(name, "supertype")
}

/// Builds [`call_selector`].
pub fn mangle(name: &str, n: usize) -> (r: String)
    ensures
        r@ == call_selector(name@, n as nat),
{
    let s = if n == 0 && getter(name) {
        String::from_str(name)
    } else {
        selector(name, n)
    };
    if str_eq(s.as_str(), "isdone") {
        String::from_str("isDone")
    } else if str_eq(s.as_str(), "not()") {
        String::from_str("!")
    } else {
        s
    }
}

/// The one-character string of a digit.
fn digit_str(d: u32) -> (r: &'static str)
    requires
        d < 10,
    ensures
        r@ == seq![digit(d as nat)],
{
    proof {
        reveal_strlit("0");
        reveal_strlit("1");
        reveal_strlit("2");
        reveal_strlit("3");
        reveal_strlit("4");
        reveal_strlit("5");
        reveal_strlit("6");
        reveal_strlit("7");
        reveal_strlit("8");
        reveal_strlit("9");
    }
    let r = if d == 0 {
        "0"
    } else if d == 1 {
        "1"
    } else if d == 2 {
        "2"
    } else if d == 3 {
        "3"
    } else if d == 4 {
        "4"
    } else if d == 5 {
        "5"
    } else if d == 6 {
        "6"
    } else if d == 7 {
        "7"
    } else if d == 8 {
        "8"
    } else {
        "9"
    };
    assert(r@ =~= seq![digit(d as nat)]);
    r
}

/// Appends the decimal numeral of `n` to `s`.
pub fn push_decimal_u64(s: &mut String, n: u64)
    ensures
        final(s)@ == old(s)@ + decimal(n as nat),
    decreases n,
{
    if n >= 10 {
        push_decimal_u64(s, n / 10);
    }
    s.append(digit_str((n % 10) as u32));
    assert(s@ =~= old(s)@ + decimal(n as nat));
}

/// Appends the decimal numeral of `n` to `s`.
pub fn push_decimal(s: &mut String, n: u32)
    ensures
        final(s)@ == old(s)@ + decimal(n as nat),
{
    push_decimal_u64(s, n as u64);
}

/// Appends the decimal numeral of `n` to `s`.
pub fn push_decimal_usize(s: &mut String, n: usize)
    ensures
        final(s)@ == old(s)@ + decimal(n as nat),
{
    push_decimal_u64(s, n as u64);
}

/// Builds [`closure_selector`].
pub fn closure_name(id: u32) -> (r: String)
    ensures
        r@ == closure_selector(id as nat),
{
    let mut s = String::from_str("closure#");
    push_decimal(&mut s, id);
    s
}

} // verus!
