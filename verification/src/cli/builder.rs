use super::args::{texts, BaseModel, BaseOptions, JsonOption};
use super::flag::{flag_of, Flag};
use super::iter::{join, lemma_value_count_bound, value_count, ArgIter};
use crate::error::Error;
use crate::text::str_eq;
use vstd::prelude::*;

verus! {

/// What a builder holds: input, output, per-stream options and JSON style.
pub type BuilderModel = (Option<Seq<char>>, Option<Seq<char>>, BaseModel, Option<JsonOption>);

/// The text of an optional string.
pub open spec fn opt_text(s: Option<String>) -> Option<Seq<char>> {
    match s {
        Some(x) => Some(x@),
        None => None,
    }
}

/// The option lists with `v` added to the list of flag `f`.
pub open spec fn push_to(b: BaseModel, f: Flag, v: Seq<char>) -> BaseModel {
    match f {
        Flag::Audio => (b.0.push(v), b.1, b.2, b.3),
        Flag::Video => (b.0, b.1.push(v), b.2, b.3),
        Flag::Subtitle => (b.0, b.1, b.2.push(v), b.3),
        Flag::Apply => (b.0, b.1, b.2, b.3.push(v)),
        _ => b,
    }
}

/// Applying flag `f` to what the builder holds, with `rest` the tokens after the flag: what it
/// holds after, and the tokens left.
pub open spec fn apply_flag(f: Flag, rest: Seq<Seq<char>>, m: BuilderModel, json_allowed: bool) -> Result<
    (BuilderModel, Seq<Seq<char>>),
    Error,
> {
    match f {
        Flag::Input => if rest.len() == 0 {
            Err(Error::MissingValue)
        } else {
            Ok(((Some(rest[0]), m.1, m.2, m.3), rest.skip(1)))
        },
        Flag::Output => if rest.len() == 0 {
            Err(Error::MissingValue)
        } else {
            Ok(((m.0, Some(rest[0]), m.2, m.3), rest.skip(1)))
        },
        Flag::Json => if !json_allowed {
            Err(Error::JsonNotAllowed)
        } else if rest.len() == 0 {
            Err(Error::MissingValue)
        } else {
            Ok(
                (
                    (m.0, m.1, m.2, Some(if rest[0] == "pretty"@ { JsonOption::Pretty } else { JsonOption::Raw })),
                    rest.skip(1),
                ),
            )
        },
        _ => {
            let k = value_count(rest);
            Ok(((m.0, m.1, push_to(m.2, f, join(rest.take(k as int))), m.3), rest.skip(k as int)))
        },
    }
}

pub proof fn lemma_apply_flag_shrinks(f: Flag, rest: Seq<Seq<char>>, m: BuilderModel, json_allowed: bool)
    ensures
        apply_flag(f, rest, m, json_allowed) matches Ok((_, r)) ==> r.len() <= rest.len(),
{
    lemma_value_count_bound(rest);
}

/// The command-line options collects its options into.
pub struct Builder {
    input: Option<String>,
    output: Option<String>,
    base: BaseOptions,
    json: Option<JsonOption>,
}

/// A builder holding nothing yet.
pub open spec fn empty_model() -> BuilderModel {
    (None, None, (Seq::empty(), Seq::empty(), Seq::empty(), Seq::empty()), None)
}

impl Builder {
    /// What the builder holds.
    pub closed spec fn model(&self) -> BuilderModel {
        (opt_text(self.input), opt_text(self.output), self.base.model(), self.json)
    }

    /// A builder holding nothing.
    pub fn new() -> (b: Self)
        ensures
            b.model() == empty_model(),
    {
        Builder { input: None, output: None, base: BaseOptions::new(), json: None }
    }

    /// Applies `flag`, taking the tokens it needs from `iter`; where it fails, neither the
    /// builder nor the iterator has changed.
    pub fn apply(&mut self, flag: Flag, iter: &mut ArgIter, json_allowed: bool) -> (r: Result<(), Error>)
        ensures
            match apply_flag(flag, old(iter).rest(), old(self).model(), json_allowed) {
                Err(e) => r == Err::<(), Error>(e) && *final(self) == *old(self) && final(iter).rest() == old(
                    iter,
                ).rest(),
                Ok((m, rest)) => r is Ok && final(self).model() == m && final(iter).rest() == rest,
            },
    {
        match flag {
            Flag::Input => {
                let v = iter.next_required()?;
                self.input = Some(v);
            },
            Flag::Output => {
                let v = iter.next_required()?;
                self.output = Some(v);
            },
            Flag::Audio => {
                let v = iter.read_values();
                self.base.audio.push(v);
                assert(texts(self.base.audio@) =~= texts(old(self).base.audio@).push(v@));
            },
            Flag::Video => {
                let v = iter.read_values();
                self.base.video.push(v);
                assert(texts(self.base.video@) =~= texts(old(self).base.video@).push(v@));
            },
            Flag::Subtitle => {
                let v = iter.read_values();
                self.base.subtitle.push(v);
                assert(texts(self.base.subtitle@) =~= texts(old(self).base.subtitle@).push(v@));
            },
            Flag::Apply => {
                let v = iter.read_values();
                self.base.apply.push(v);
                assert(texts(self.base.apply@) =~= texts(old(self).base.apply@).push(v@));
            },
            Flag::Json => {
                if !json_allowed {
                    return Err(Error::JsonNotAllowed);
                }
                let value = iter.next_required()?;
                let json_value = if str_eq(value.as_str(), "pretty") {
                    JsonOption::Pretty
                } else {
                    JsonOption::Raw
                };
                self.json = Some(json_value);
            },
        }
        Ok(())
    }

    /// The options collected; `MissingInput` where no input was given.
    pub fn build(self) -> (r: Result<(String, Option<String>, BaseOptions, Option<JsonOption>), Error>)
        ensures
            self.model().0 is None ==> r == Err::<(String, Option<String>, BaseOptions, Option<JsonOption>), Error>(
                Error::MissingInput,
            ),
            self.model().0 matches Some(i) ==> (r matches Ok((inp, out, base, json)) && inp@ == i && opt_text(out)
                == self.model().1 && base.model() == self.model().2 && json == self.model().3),
    {
        match self.input {
            Some(i) => Ok((i, self.output, self.base, self.json)),
            None => Err(Error::MissingInput),
        }
    }
}

} // verus!
