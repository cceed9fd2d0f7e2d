use super::args::texts;
use crate::error::Error;
use crate::text::{starts_with_dash, trim, trimmed};
use vstd::prelude::*;

verus! {

/// Whether a token is a flag: it starts with `-`.
pub open spec fn is_flag(t: Seq<char>) -> bool {
    t.len() > 0 && t[0] == '-'
}

/// How many tokens come before the next flag.
pub open spec fn value_count(ts: Seq<Seq<char>>) -> nat
    decreases ts.len(),
{
    if ts.len() == 0 || is_flag(ts[0]) {
        0
    } else {
        1 + value_count(ts.skip(1))
    }
}

/// Tokens joined by single spaces.
pub open spec fn join(ts: Seq<Seq<char>>) -> Seq<char>
    decreases ts.len(),
{
    if ts.len() == 0 {
        Seq::empty()
    } else if ts.len() == 1 {
        ts[0]
    } else {
        join(ts.drop_last()) + " "@ + ts.last()
    }
}

pub proof fn lemma_value_count_bound(ts: Seq<Seq<char>>)
    ensures
        value_count(ts) <= ts.len(),
        forall|i: int| 0 <= i < value_count(ts) ==> !is_flag(#[trigger] ts[i]),
        value_count(ts) < ts.len() ==> is_flag(ts[value_count(ts) as int]),
    decreases ts.len(),
{
    if ts.len() > 0 && !is_flag(ts[0]) {
        lemma_value_count_bound(ts.skip(1));
        assert forall|i: int| 0 <= i < value_count(ts) implies !is_flag(#[trigger] ts[i]) by {
            if i > 0 {
                assert(ts[i] == ts.skip(1)[i - 1]);
            }
        }
    }
}

/// A cursor over command-line tokens.
pub struct ArgIter {
    args: Vec<String>,
    pos: usize,
}

impl ArgIter {
    /// The tokens not taken yet.
    pub closed spec fn rest(&self) -> Seq<Seq<char>> {
        if self.pos <= self.args@.len() {
            texts(self.args@).skip(self.pos as int)
        } else {
            Seq::empty()
        }
    }

    closed spec fn ok(&self) -> bool {
        self.pos <= self.args@.len()
    }

    /// A cursor at the first of `args`.
    pub fn new(args: Vec<String>) -> (it: Self)
        ensures
            it.rest() == texts(args@),
    {
        let it = ArgIter { args, pos: 0 };
        assert(texts(it.args@).skip(0) =~= texts(it.args@));
        it
    }

    /// Takes the next token.
    pub fn next(&mut self) -> (t: Option<String>)
        ensures
            old(self).rest().len() == 0 ==> t is None && final(self).rest() == old(self).rest(),
            old(self).rest().len() > 0 ==> (t matches Some(s) && s@ == old(self).rest()[0]) && final(self).rest()
                == old(self).rest().skip(1),
    {
        if self.pos < self.args.len() {
            let t = self.args[self.pos].clone();
            self.pos = self.pos + 1;
            assert(texts(self.args@).skip(self.pos as int) =~= texts(old(self).args@).skip(old(self).pos as int).skip(1));
            assert(texts(old(self).args@)[old(self).pos as int] == t@);
            Some(t)
        } else {
            assert(old(self).rest() =~= Seq::<Seq<char>>::empty());
            None
        }
    }

    /// The next token, not taken.
    pub fn peek(&self) -> (t: Option<&str>)
        ensures
            self.rest().len() == 0 ==> t is None,
            self.rest().len() > 0 ==> (t matches Some(s) && s@ == self.rest()[0]),
    {
        if self.pos < self.args.len() {
            assert(texts(self.args@)[self.pos as int] == self.args@[self.pos as int]@);
            Some(self.args[self.pos].as_str())
        } else {
            assert(self.rest() =~= Seq::<Seq<char>>::empty());
            None
        }
    }

    /// Takes the next token, which must be there: `MissingValue` otherwise.
    pub fn next_required(&mut self) -> (r: Result<String, Error>)
        ensures
            old(self).rest().len() == 0 ==> r == Err::<String, Error>(Error::MissingValue) && final(self).rest()
                == old(self).rest(),
            old(self).rest().len() > 0 ==> (r matches Ok(s) && s@ == old(self).rest()[0]) && final(self).rest()
                == old(self).rest().skip(1),
    {
        match self.next() {
            Some(t) => Ok(t),
            None => Err(Error::MissingValue),
        }
    }

    /// Takes the tokens up to the next flag and joins them with spaces.
    pub fn read_values(&mut self) -> (v: String)
        ensures
            v@ == join(old(self).rest().take(value_count(old(self).rest()) as int)),
            final(self).rest() == old(self).rest().skip(value_count(old(self).rest()) as int),
    {
        if self.pos > self.args.len() {
            self.pos = self.args.len();
            assert(self.rest() =~= old(self).rest());
        }
        let ghost rest0 = self.rest();
        let ghost pos0 = self.pos as int;
        proof {
            lemma_value_count_bound(rest0);
            reveal_strlit(" ");
        }
        let mut v = String::new();
        let mut first = true;
        let ghost mut k: int = 0;
        assert(rest0.take(0) =~= Seq::<Seq<char>>::empty());
        assert(self.rest() =~= rest0.skip(0));
        while self.pos < self.args.len() && !starts_with_dash(self.args[self.pos].as_str())
            invariant
                self.ok(),
                0 <= k <= value_count(rest0),
                value_count(rest0) <= rest0.len(),
                forall|i: int| 0 <= i < value_count(rest0) ==> !is_flag(#[trigger] rest0[i]),
                value_count(rest0) < rest0.len() ==> is_flag(rest0[value_count(rest0) as int]),
                self.rest() == rest0.skip(k),
                first == (k == 0),
                v@ == join(rest0.take(k)),
                rest0 == old(self).rest(),
                self.pos == pos0 + k,
                rest0 == texts(self.args@).skip(pos0),
                0 <= pos0 <= self.args@.len(),
            decreases self.args@.len() - self.pos,
        {
            let t = self.args[self.pos].as_str();
            proof {
                assert(texts(self.args@).len() == self.args@.len());
                assert(0 <= pos0 <= texts(self.args@).len());
                assert(texts(self.args@).skip(pos0).len() == texts(self.args@).len() - pos0);
                assert(rest0.len() == self.args@.len() - pos0);
                assert(texts(self.args@)[self.pos as int] == self.args@[self.pos as int]@);
                assert(rest0[k] == texts(self.args@)[pos0 + k]);
                assert(t@ == rest0[k]);
                if k == value_count(rest0) {
                    assert(is_flag(rest0[k]));
                }
            }
            if first {
                v = String::from_str(t);
                assert(rest0.take(1) =~= seq![rest0[0]]);
            } else {
                v.append(" ");
                v.append(t);
                assert(rest0.take(k + 1).drop_last() =~= rest0.take(k));
            }
            first = false;
            self.pos = self.pos + 1;
            proof {
                k = k + 1;
                assert(texts(self.args@).len() == self.args@.len());
                assert(self.rest() =~= rest0.skip(k));
            }
        }
        proof {
            if k < value_count(rest0) {
                assert(self.rest()[0] == rest0[k]);
                assert(!is_flag(rest0[k]));
            }
        }
        v
    }
}

/// Tokens without their surrounding white space.
pub open spec fn trim_all(ts: Seq<Seq<char>>) -> Seq<Seq<char>> {
    ts.map_values(|t: Seq<char>| trimmed(t))
}

/// Tokens joined one at a time: each step adds a space and the token to what came before and
/// trims the result.
pub open spec fn join_trimmed(ts: Seq<Seq<char>>) -> Seq<char>
    decreases ts.len(),
{
    if ts.len() == 0 {
        Seq::empty()
    } else {
        trimmed(join_trimmed(ts.drop_last()) + " "@ + ts.last())
    }
}

/// A cursor over the command line's tokens, each without its surrounding white space.
pub struct Iter {
    args: ArgIter,
}

impl Iter {
    /// The tokens not taken yet.
    pub closed spec fn rest(&self) -> Seq<Seq<char>> {
        self.args.rest()
    }

    /// A cursor past the program's name, the first of `args`.
    pub fn new(args: Vec<String>) -> (it: Self)
        ensures
            it.rest() == trim_all(texts(args@).skip(if args@.len() > 0 { 1int } else { 0 })),
    {
        let start: usize = if args.len() > 0 {
            1
        } else {
            0
        };
        let mut tokens: Vec<String> = Vec::new();
        let mut i: usize = start;
        while i < args.len()
            invariant
                start <= i <= args@.len(),
                start == (if args@.len() > 0 { 1int } else { 0 }),
                texts(tokens@) == trim_all(texts(args@).subrange(start as int, i as int)),
            decreases args@.len() - i,
        {
            let t = trim(args[i].as_str());
            let ghost before = tokens@;
            tokens.push(t);
            i = i + 1;
            assert(texts(tokens@) =~= texts(before).push(t@));
            assert(trim_all(texts(args@).subrange(start as int, i as int)) =~= trim_all(
                texts(args@).subrange(start as int, i - 1),
            ).push(trimmed(args@[i - 1]@)));
        }
        assert(texts(args@).subrange(start as int, i as int) =~= texts(args@).skip(start as int));
        Iter { args: ArgIter::new(tokens) }
    }

    /// Takes the next token.
    pub fn next(&mut self) -> (t: Option<String>)
        ensures
            old(self).rest().len() == 0 ==> t is None && final(self).rest() == old(self).rest(),
            old(self).rest().len() > 0 ==> (t matches Some(s) && s@ == old(self).rest()[0]) && final(self).rest()
                == old(self).rest().skip(1),
    {
        self.args.next()
    }

    /// The next token, not taken.
    pub fn peek(&self) -> (t: Option<&str>)
        ensures
            self.rest().len() == 0 ==> t is None,
            self.rest().len() > 0 ==> (t matches Some(s) && s@ == self.rest()[0]),
    {
        self.args.peek()
    }

    /// Takes the next token, which must be `expected`: `MissingValue` where there is none,
    /// `UnexpectedArgument` where it is another.
    pub fn expect(&mut self, expected: &str) -> (r: Result<(), Error>)
        ensures
            old(self).rest().len() == 0 ==> r == Err::<(), Error>(Error::MissingValue) && final(self).rest()
                == old(self).rest(),
            old(self).rest().len() > 0 ==> final(self).rest() == old(self).rest().skip(1) && (r is Ok
                <==> old(self).rest()[0] == expected@) && (r is Err ==> r == Err::<(), Error>(
                Error::UnexpectedArgument,
            )),
    {
        match self.next() {
            Some(arg) => if crate::text::str_eq(arg.as_str(), expected) {
                Ok(())
            } else {
                Err(Error::UnexpectedArgument)
            },
            None => Err(Error::MissingValue),
        }
    }

    /// Takes the tokens up to the next flag, joined as `join_trimmed` joins them.
    pub fn take_until_flag(&mut self) -> (r: Result<String, Error>)
        ensures
            r matches Ok(v) && v@ == join_trimmed(old(self).rest().take(value_count(old(self).rest()) as int)),
            final(self).rest() == old(self).rest().skip(value_count(old(self).rest()) as int),
    {
        let ghost rest0 = self.rest();
        proof {
            lemma_value_count_bound(rest0);
            reveal_strlit(" ");
            assert(rest0.take(0) =~= Seq::<Seq<char>>::empty());
            assert(rest0.skip(0) =~= rest0);
        }
        let mut acc = String::new();
        let ghost mut k: int = 0;
        loop
            invariant
                0 <= k <= value_count(rest0),
                value_count(rest0) <= rest0.len(),
                forall|i: int| 0 <= i < value_count(rest0) ==> !is_flag(#[trigger] rest0[i]),
                value_count(rest0) < rest0.len() ==> is_flag(rest0[value_count(rest0) as int]),
                self.rest() == rest0.skip(k),
                acc@ == join_trimmed(rest0.take(k)),
                rest0 == old(self).rest(),
            ensures
                k == value_count(rest0),
                self.rest() == rest0.skip(k),
                acc@ == join_trimmed(rest0.take(k)),
            decreases rest0.len() - k,
        {
            let stop = match self.peek() {
                None => true,
                Some(t) => starts_with_dash(t),
            };
            if stop {
                proof {
                    if k < value_count(rest0) {
                        assert(self.rest()[0] == rest0[k]);
                    }
                }
                break;
            }
            proof {
                if k == value_count(rest0) {
                    assert(self.rest()[0] == rest0[k]);
                }
            }
            let value = match self.next() {
                Some(v) => v,
                None => {
                    break;
                },
            };
            let mut joined = acc.clone();
            joined.append(" ");
            joined.append(value.as_str());
            acc = trim(joined.as_str());
            proof {
                assert(rest0.skip(k).skip(1) =~= rest0.skip(k + 1));
                assert(rest0.take(k + 1).drop_last() =~= rest0.take(k));
                assert(value@ == rest0[k]);
                k = k + 1;
            }
        }
        Ok(acc)
    }
}

} // verus!
