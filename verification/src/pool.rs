//! The constant pool: the strings that instructions refer to by index.

use vstd::prelude::*;
use vstd::string::*;
use crate::error::CompileError;
use crate::text::str_eq;

verus! {

/// The largest number of strings that a pool can hold: indices are 16 bits wide.
pub const POOL_LIMIT: usize = 65536;

/// The first position at which `x` occurs in `s`.
pub open spec fn position<A>(s: Seq<A>, x: A) -> Option<nat>
    decreases s.len(),
{
    if s.len() == 0 {
        None
    } else {
        match position(s.drop_last(), x) {
            Some(i) => Some(i),
            None => if s.last() == x {
                Some((s.len() - 1) as nat)
            } else {
                None
            },
        }
    }
}

/// The character sequences of a vector of strings.
pub open spec fn texts(v: Seq<String>) -> Seq<Seq<char>> {
    v.map_values(|s: String| s@)
}

/// The pool after a push of `s`: unchanged where `s` is there, else with `s`
/// at the end.
pub open spec fn pool_push(p: Seq<Seq<char>>, s: Seq<char>) -> Seq<Seq<char>> {
    if position(p, s) is Some {
        p
    } else {
        p.push(s)
    }
}

/// The pool after the strings of `ss` were pushed in order.
pub open spec fn pool_push_all(p: Seq<Seq<char>>, ss: Seq<Seq<char>>) -> Seq<Seq<char>>
    decreases ss.len(),
{
    if ss.len() == 0 {
        p
    } else {
        pool_push(pool_push_all(p, ss.drop_last()), ss.last())
    }
}

/// What `position` returns is the first occurrence, and it finds every
/// element that occurs.
pub proof fn lemma_position<A>(s: Seq<A>, x: A)
    ensures
        match position(s, x) {
            Some(i) => i < s.len() && s[i as int] == x && forall|k: int|
                0 <= k < i ==> s[k] != x,
            None => forall|k: int| 0 <= k < s.len() ==> s[k] != x,
        },
    decreases s.len(),
{
    if s.len() > 0 {
        let front = s.drop_last();
        lemma_position(front, x);
        assert forall|k: int| 0 <= k < front.len() implies front[k] == s[k] by {}
        match position(front, x) {
            Some(i) => {
                assert(front[i as int] == s[i as int]);
                assert forall|k: int| 0 <= k < i implies s[k] != x by {
                    assert(front[k] != x);
                }
            },
            None => {
                assert forall|k: int| 0 <= k < s.len() - 1 implies s[k] != x by {
                    assert(front[k] != x);
                }
            },
        }
    }
}

/// An element at index `i` that does not occur before `i` has position `i`.
pub proof fn lemma_position_is<A>(s: Seq<A>, x: A, i: int)
    requires
        0 <= i < s.len(),
        s[i] == x,
        forall|k: int| 0 <= k < i ==> s[k] != x,
    ensures
        position(s, x) == Some(i as nat),
{
    lemma_position(s, x);
}

/// Appending to a sequence leaves the positions of its elements as they are.
pub proof fn lemma_position_push<A>(s: Seq<A>, y: A, x: A)
    ensures
        position(s, x) is Some ==> position(s.push(y), x) == position(s, x),
        position(s, x) is None && y == x ==> position(s.push(y), x) == Some(s.len()),
        position(s, x) is None && y != x ==> position(s.push(y), x) is None,
{
    assert(s.push(y).drop_last() =~= s);
}

/// A deduplicated table of strings in first-insertion order.
pub struct ConstantPool {
    pub strings: Vec<String>,
}

impl View for ConstantPool {
    type V = Seq<Seq<char>>;

    open spec fn view(&self) -> Seq<Seq<char>> {
        texts(self.strings@)
    }
}

impl ConstantPool {
    /// No string occurs twice, and every index fits in 16 bits.
    pub open spec fn wf(&self) -> bool {
        &&& self@.no_duplicates()
        &&& self@.len() <= POOL_LIMIT
    }

    /// An empty pool.
    pub fn new() -> (r: Self)
        ensures
            r.wf(),
            r@ == Seq::<Seq<char>>::empty(),
    {
        let r = ConstantPool { strings: Vec::new() };
        assert(r@ =~= Seq::<Seq<char>>::empty());
        r
    }

    /// The number of strings in the pool.
    pub fn len(&self) -> (r: usize)
        ensures
            r == self@.len(),
    {
        self.strings.len()
    }

    /// The index of `s`, if it is in the pool.
    pub fn find(&self, s: &str) -> (r: Option<usize>)
        ensures
            match r {
                Some(i) => position(self@, s@) == Some(i as nat),
                None => position(self@, s@) is None,
            },
    {
        let r = find_str(&self.strings, s);
        r
    }

    /// Adds `s` unless it is there. Fails, leaving the pool as it was, where
    /// `s` is new and the pool is full.
    pub fn str_push(&mut self, s: &str) -> (r: Result<(), CompileError>)
        requires
            old(self).wf(),
        ensures
            final(self).wf(),
            match r {
                Ok(_) => final(self)@ == pool_push(old(self)@, s@),
                Err(e) => e == CompileError::CapacityOverflow && final(self)@ == old(self)@,
            },
            r is Err <==> position(old(self)@, s@) is None && old(self)@.len() == POOL_LIMIT,
    {
        match self.find(s) {
            Some(_) => Ok(()),
            None => {
                if self.strings.len() >= POOL_LIMIT {
                    return Err(CompileError::CapacityOverflow);
                }
                proof {
                    lemma_position(self@, s@);
                }
                let ghost before = self@;
                self.strings.push(String::from_str(s));
                assert(self@ =~= before.push(s@));
                Ok(())
            },
        }
    }

    /// The index that `s` was given at its first push.
    pub fn str_index(&self, s: &str) -> (r: u16)
        requires
            self.wf(),
            position(self@, s@) is Some,
        ensures
            position(self@, s@) == Some(r as nat),
    {
        proof {
            lemma_position(self@, s@);
        }
        match self.find(s) {
            Some(i) => i as u16,
            None => 0,
        }
    }

    /// Pushes `s` and returns its index.
    pub fn intern(&mut self, s: &str) -> (r: Result<u16, CompileError>)
        requires
            old(self).wf(),
        ensures
            final(self).wf(),
            match r {
                Ok(i) => final(self)@ == pool_push(old(self)@, s@) && position(final(self)@, s@)
                    == Some(i as nat),
                Err(e) => e == CompileError::CapacityOverflow && final(self)@ == old(self)@,
            },
            r is Err <==> position(old(self)@, s@) is None && old(self)@.len() == POOL_LIMIT,
    {
        let ghost before = self@;
        match self.str_push(s) {
            Ok(_) => {
                proof {
                    lemma_position_push(before, s@, s@);
                }
                Ok(self.str_index(s))
            },
            Err(e) => Err(e),
        }
    }
}

/// The first index at which a vector of strings holds `s`.
pub fn find_str(v: &Vec<String>, s: &str) -> (r: Option<usize>)
    ensures
        match r {
            Some(i) => position(texts(v@), s@) == Some(i as nat),
            None => position(texts(v@), s@) is None,
        },
{
    let mut i: usize = 0;
    while i < v.len()
        invariant
            i <= v.len(),
            forall|k: int| 0 <= k < i ==> texts(v@)[k] != s@,
        decreases v.len() - i,
    {
        if str_eq(v[i].as_str(), s) {
            proof {
                lemma_position_is(texts(v@), s@, i as int);
            }
            return Some(i);
        }
        i += 1;
    }
    proof {
        lemma_position(texts(v@), s@);
    }
    None
}

/// Pushing a string twice is the same as pushing it once, and gives the same
/// index both times.
pub proof fn law_push_idempotent(p: Seq<Seq<char>>, s: Seq<char>)
    ensures
        pool_push(pool_push(p, s), s) == pool_push(p, s),
        position(pool_push(p, s), s) is Some,
        position(pool_push(pool_push(p, s), s), s) == position(pool_push(p, s), s),
{
    lemma_position_push(p, s, s);
}

/// A push never moves a string that is in the pool.
pub proof fn law_push_keeps_indices(p: Seq<Seq<char>>, s: Seq<char>, t: Seq<char>)
    requires
        position(p, t) is Some,
    ensures
        position(pool_push(p, s), t) == position(p, t),
{
    lemma_position_push(p, s, t);
}

/// A push keeps the pool free of duplicates.
pub proof fn law_push_keeps_unique(p: Seq<Seq<char>>, s: Seq<char>)
    requires
        p.no_duplicates(),
    ensures
        pool_push(p, s).no_duplicates(),
{
    lemma_position(p, s);
}

/// Pushing distinct strings into an empty pool gives them the indices
/// 0, 1, 2, ... in the order of the pushes.
pub proof fn law_distinct_pushes_count_up(ss: Seq<Seq<char>>)
    requires
        ss.no_duplicates(),
    ensures
        pool_push_all(Seq::empty(), ss) == ss,
        forall|i: int| 0 <= i < ss.len() ==> position(ss, #[trigger] ss[i]) == Some(i as nat),
    decreases ss.len(),
{
    if ss.len() > 0 {
        let front = ss.drop_last();
        law_distinct_pushes_count_up(front);
        lemma_position(front, ss.last());
        assert(front.push(ss.last()) =~= ss);
    }
    assert forall|i: int| 0 <= i < ss.len() implies position(ss, #[trigger] ss[i]) == Some(
        i as nat,
    ) by {
        lemma_position_is(ss, ss[i], i);
    }
}

} // verus!
