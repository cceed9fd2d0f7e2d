use super::args::{BaseOptions, Cli, Command, ConvertOptions, JsonOption, PlayCommand, ProbeCommand};
use super::builder::{apply_flag, empty_model, lemma_apply_flag_shrinks, opt_text, Builder, BuilderModel};
use super::flag::{flag_of, Flag};
use super::iter::ArgIter;
use crate::error::Error;
use crate::text::str_eq;
use vstd::prelude::*;

verus! {

broadcast use vstd::std_specs::control_flow::group_control_flow_axioms;

/// Reading flags and their values from `rest` into what a builder holds.
pub open spec fn base_walk(rest: Seq<Seq<char>>, m: BuilderModel, json_allowed: bool) -> Result<BuilderModel, Error>
    decreases rest.len(),
{
    if rest.len() == 0 {
        Ok(m)
    } else {
        match flag_of(rest[0]) {
            None => Err(Error::UnknownFlag),
            Some(f) => match apply_flag(f, rest.skip(1), m, json_allowed) {
                Err(e) => Err(e),
                Ok((m2, r2)) => {
                    proof {
                        lemma_apply_flag_shrinks(f, rest.skip(1), m, json_allowed);
                    }
                    base_walk(r2, m2, json_allowed)
                },
            },
        }
    }
}

/// What reading the options of a command from `rest` gives: input, output, per-stream
/// options and JSON style; `MissingInput` where no `-i` came.
pub open spec fn command_base(rest: Seq<Seq<char>>, json_allowed: bool) -> Result<BuilderModel, Error> {
    match base_walk(rest, empty_model(), json_allowed) {
        Err(e) => Err(e),
        Ok(m) => if m.0 is None {
            Err(Error::MissingInput)
        } else {
            Ok(m)
        },
    }
}

/// The options of a command, read from the rest of the tokens: every token must be a flag,
/// followed by what it takes.
pub fn parse_command_base(iter: &mut ArgIter, json_allowed: bool) -> (r: Result<
    (String, Option<String>, BaseOptions, Option<JsonOption>),
    Error,
>)
    ensures
        match command_base(old(iter).rest(), json_allowed) {
            Err(e) => r == Err::<(String, Option<String>, BaseOptions, Option<JsonOption>), Error>(e),
            Ok(m) => r matches Ok((inp, out, base, json)) && Some(inp@) == m.0 && opt_text(out) == m.1 && base.model()
                == m.2 && json == m.3,
        },
        r is Ok ==> final(iter).rest().len() == 0,
{
    let ghost goal = base_walk(iter.rest(), empty_model(), json_allowed);
    let mut builder = Builder::new();
    loop
        invariant
            base_walk(iter.rest(), builder.model(), json_allowed) == goal,
            goal == base_walk(old(iter).rest(), empty_model(), json_allowed),
        ensures
            goal == Ok::<BuilderModel, Error>(builder.model()),
            goal == base_walk(old(iter).rest(), empty_model(), json_allowed),
            iter.rest().len() == 0,
        decreases iter.rest().len(),
    {
        let ghost s = iter.rest();
        let token = match iter.next() {
            Some(t) => t,
            None => {
                break;
            },
        };
        let flag = match Flag::parse(token.as_str()) {
            Some(f) => f,
            None => {
                return Err(Error::UnknownFlag);
            },
        };
        proof {
            lemma_apply_flag_shrinks(flag, s.skip(1), builder.model(), json_allowed);
        }
        builder.apply(flag, iter, json_allowed)?;
    }
    builder.build()
}

/// A conversion: its options, with an output required (`MissingOutput` otherwise).
pub fn parse_convert(iter: &mut ArgIter) -> (r: Result<Cli, Error>)
    ensures
        match command_base(old(iter).rest(), false) {
            Err(e) => r == Err::<Cli, Error>(e),
            Ok(m) => match m.1 {
                None => r == Err::<Cli, Error>(Error::MissingOutput),
                Some(o) => r matches Ok(Cli::Convert(c)) && Some(c.input@) == m.0 && c.output@ == o && c.base.model()
                    == m.2,
            },
        },
{
    let (input, output, base, _) = parse_command_base(iter, false)?;
    let output = match output {
        Some(o) => o,
        None => {
            return Err(Error::MissingOutput);
        },
    };
    Ok(Cli::Convert(ConvertOptions { input, output, base }))
}

/// `probe`: the command word is skipped, then its options, JSON allowed.
pub fn parse_probe(iter: &mut ArgIter) -> (r: Result<Cli, Error>)
    ensures
        match command_base(old(iter).rest().skip(if old(iter).rest().len() > 0 { 1int } else { 0 }), true) {
            Err(e) => r == Err::<Cli, Error>(e),
            Ok(m) => r matches Ok(Cli::Command(Command::Probe(p))) && Some(p.input@) == m.0 && opt_text(p.output)
                == m.1 && p.base.model() == m.2 && p.json == m.3,
        },
{
    let _ = iter.next();
    assert(old(iter).rest().skip(0) =~= old(iter).rest());
    let (input, output, base, json) = parse_command_base(iter, true)?;
    Ok(Cli::Command(Command::Probe(ProbeCommand { input, output, json, base })))
}

/// `play`: the command word is skipped, then its options.
pub fn parse_play(iter: &mut ArgIter) -> (r: Result<Cli, Error>)
    ensures
        match command_base(old(iter).rest().skip(if old(iter).rest().len() > 0 { 1int } else { 0 }), false) {
            Err(e) => r == Err::<Cli, Error>(e),
            Ok(m) => r matches Ok(Cli::Command(Command::Play(p))) && Some(p.input@) == m.0 && opt_text(p.output)
                == m.1 && p.base.model() == m.2,
        },
{
    let _ = iter.next();
    assert(old(iter).rest().skip(0) =~= old(iter).rest());
    let (input, output, base, _) = parse_command_base(iter, false)?;
    Ok(Cli::Command(Command::Play(PlayCommand { input, output, base })))
}

/// Parses a whole command line, the program's name first: `play` and `probe` name their
/// commands, anything else is a conversion.
pub fn parse_cli(args: Vec<String>) -> (r: Result<Cli, Error>)
    ensures
        ({
            let ts = super::args::texts(args@).skip(if args@.len() > 0 { 1int } else { 0 });
            &&& ts.len() > 0 && ts[0] == "play"@ ==> match command_base(ts.skip(1), false) {
                Err(e) => r == Err::<Cli, Error>(e),
                Ok(m) => r matches Ok(Cli::Command(Command::Play(p))) && Some(p.input@) == m.0 && opt_text(p.output)
                    == m.1 && p.base.model() == m.2,
            }
            &&& ts.len() > 0 && ts[0] == "probe"@ ==> match command_base(ts.skip(1), true) {
                Err(e) => r == Err::<Cli, Error>(e),
                Ok(m) => r matches Ok(Cli::Command(Command::Probe(p))) && Some(p.input@) == m.0 && opt_text(p.output)
                    == m.1 && p.base.model() == m.2 && p.json == m.3,
            }
            &&& !(ts.len() > 0 && (ts[0] == "play"@ || ts[0] == "probe"@)) ==> match command_base(ts, false) {
                Err(e) => r == Err::<Cli, Error>(e),
                Ok(m) => match m.1 {
                    None => r == Err::<Cli, Error>(Error::MissingOutput),
                    Some(o) => r matches Ok(Cli::Convert(c)) && Some(c.input@) == m.0 && c.output@ == o
                        && c.base.model() == m.2,
                },
            }
        }),
{
    let mut iter = ArgIter::new(args);
    let _ = iter.next();
    let is_play = match iter.peek() {
        Some(t) => str_eq(t, "play"),
        None => false,
    };
    let is_probe = match iter.peek() {
        Some(t) => str_eq(t, "probe"),
        None => false,
    };
    proof {
        reveal_strlit("play");
        reveal_strlit("probe");
        assert("play"@ != "probe"@) by {
            assert("play"@[1] != "probe"@[1]);
        }
    }
    if is_play {
        parse_play(&mut iter)
    } else if is_probe {
        parse_probe(&mut iter)
    } else {
        parse_convert(&mut iter)
    }
}

} // verus!
