use super::args::{texts, BaseModel, BaseOptions, Cli, Command, ConvertOptions, PlayCommand, ProbeCommand};
use super::builder::{opt_text, push_to};
use super::flag::Flag;
use super::iter::{join_trimmed, lemma_value_count_bound, trim_all, value_count, Iter};
use crate::error::Error;
use crate::text::str_eq;
use vstd::prelude::*;

verus! {

broadcast use vstd::std_specs::control_flow::group_control_flow_axioms;

/// Calls `std::path::Path::exists`. Whether a path exists depends on the disk at the time of
/// the call, so the contract says nothing of the result.
#[verifier::external_body]
fn path_exists(path: &str) -> (b: bool) {
    std::path::Path::new(path).exists()
}

/// What the loose parser holds: input, output and per-stream options.
pub type RawModel = (Option<Seq<char>>, Option<Seq<char>>, BaseModel);

/// The per-stream flag a token names in the loose syntax (long forms only).
pub open spec fn stream_flag(t: Seq<char>) -> Option<Flag> {
    if t == "--audio"@ {
        Some(Flag::Audio)
    } else if t == "--video"@ {
        Some(Flag::Video)
    } else if t == "--subtitle"@ {
        Some(Flag::Subtitle)
    } else if t == "--apply"@ {
        Some(Flag::Apply)
    } else {
        None
    }
}

/// Reading the loose syntax from `rest`, paths taken as they are: `-i` and (where outputs are
/// accepted) `-o` take one path, the per-stream flags take the tokens up to the next flag,
/// anything else is `UnexpectedArgument`.
pub open spec fn common_walk(rest: Seq<Seq<char>>, accepts_output: bool, m: RawModel) -> Result<RawModel, Error>
    decreases rest.len(),
{
    if rest.len() == 0 {
        Ok(m)
    } else if rest[0] == "-i"@ {
        if rest.len() < 2 {
            Err(Error::MissingValue)
        } else {
            common_walk(rest.skip(2), accepts_output, (Some(rest[1]), m.1, m.2))
        }
    } else if rest[0] == "-o"@ && accepts_output {
        if rest.len() < 2 {
            Err(Error::MissingValue)
        } else {
            common_walk(rest.skip(2), accepts_output, (m.0, Some(rest[1]), m.2))
        }
    } else {
        match stream_flag(rest[0]) {
            None => Err(Error::UnexpectedArgument),
            Some(f) => {
                let r = rest.skip(1);
                let k = value_count(r);
                proof {
                    lemma_value_count_bound(r);
                }
                common_walk(r.skip(k as int), accepts_output, (m.0, m.1, push_to(m.2, f, join_trimmed(r.take(k as int)))))
            },
        }
    }
}

/// The options the loose syntax collects.
pub struct RawArgs {
    pub input: Option<String>,
    pub output: Option<String>,
    pub base: BaseOptions,
}

impl RawArgs {
    /// What the options hold.
    pub open spec fn model(&self) -> RawModel {
        (opt_text(self.input), opt_text(self.output), self.base.model())
    }
}

/// The next token as a path, which must be there (`MissingValue` otherwise); where it must
/// exist and does not, `PathNotFound`.
fn parse_path(iter: &mut Iter, required_exists: bool) -> (r: Result<String, Error>)
    ensures
        old(iter).rest().len() == 0 ==> r == Err::<String, Error>(Error::MissingValue) && final(iter).rest()
            == old(iter).rest(),
        old(iter).rest().len() > 0 ==> final(iter).rest() == old(iter).rest().skip(1) && (r matches Ok(p) ==> p@
            == old(iter).rest()[0]) && (r matches Err(e) ==> e == Error::PathNotFound && required_exists),
{
    let path = match iter.next() {
        Some(p) => p,
        None => {
            return Err(Error::MissingValue);
        },
    };
    if required_exists && !path_exists(path.as_str()) {
        return Err(Error::PathNotFound);
    }
    Ok(path)
}

/// No options yet.
pub open spec fn no_options() -> RawModel {
    (None, None, (Seq::empty(), Seq::empty(), Seq::empty(), Seq::empty()))
}

/// The answers left once the first is used.
pub open spec fn after_first(found: Seq<bool>) -> Seq<bool> {
    if found.len() == 0 {
        found
    } else {
        found.skip(1)
    }
}

/// Reading the loose syntax from `rest` as `parse_common` does, where `found` lists in order
/// whether each `-i` path read exists (a path past its end counts as existing): as
/// `common_walk`, but `PathNotFound` at the first `-i` path that does not exist.
pub open spec fn checked_walk(rest: Seq<Seq<char>>, accepts_output: bool, m: RawModel, found: Seq<bool>) -> Result<
    RawModel,
    Error,
>
    decreases rest.len(),
{
    if rest.len() == 0 {
        Ok(m)
    } else if rest[0] == "-i"@ {
        if rest.len() < 2 {
            Err(Error::MissingValue)
        } else if found.len() > 0 && !found[0] {
            Err(Error::PathNotFound)
        } else {
            checked_walk(rest.skip(2), accepts_output, (Some(rest[1]), m.1, m.2), after_first(found))
        }
    } else if rest[0] == "-o"@ && accepts_output {
        if rest.len() < 2 {
            Err(Error::MissingValue)
        } else {
            checked_walk(rest.skip(2), accepts_output, (m.0, Some(rest[1]), m.2), found)
        }
    } else {
        match stream_flag(rest[0]) {
            None => Err(Error::UnexpectedArgument),
            Some(f) => {
                let r = rest.skip(1);
                let k = value_count(r);
                proof {
                    lemma_value_count_bound(r);
                }
                checked_walk(
                    r.skip(k as int),
                    accepts_output,
                    (m.0, m.1, push_to(m.2, f, join_trimmed(r.take(k as int)))),
                    found,
                )
            },
        }
    }
}

/// Where every `-i` path read exists, the checked reading is `common_walk`.
pub proof fn lemma_checked_walk_all_found(rest: Seq<Seq<char>>, accepts_output: bool, m: RawModel, found: Seq<bool>)
    requires
        forall|i: int| 0 <= i < found.len() ==> #[trigger] found[i],
    ensures
        checked_walk(rest, accepts_output, m, found) == common_walk(rest, accepts_output, m),
    decreases rest.len(),
{
    if rest.len() > 0 {
        if rest[0] == "-i"@ {
            if rest.len() >= 2 {
                let g = after_first(found);
                assert forall|i: int| 0 <= i < g.len() implies #[trigger] g[i] by {
                    assert(g[i] == found[i + 1]);
                }
                lemma_checked_walk_all_found(rest.skip(2), accepts_output, (Some(rest[1]), m.1, m.2), g);
            }
        } else if rest[0] == "-o"@ && accepts_output {
            if rest.len() >= 2 {
                lemma_checked_walk_all_found(rest.skip(2), accepts_output, (m.0, Some(rest[1]), m.2), found);
            }
        } else {
            match stream_flag(rest[0]) {
                None => {},
                Some(f) => {
                    let r = rest.skip(1);
                    let k = value_count(r);
                    lemma_value_count_bound(r);
                    lemma_checked_walk_all_found(
                        r.skip(k as int),
                        accepts_output,
                        (m.0, m.1, push_to(m.2, f, join_trimmed(r.take(k as int)))),
                        found,
                    );
                },
            }
        }
    }
}

/// Where no token is `-i`, no path is checked, and the checked reading is `common_walk`
/// whatever the answers.
pub proof fn lemma_checked_walk_without_input(rest: Seq<Seq<char>>, accepts_output: bool, m: RawModel, found: Seq<bool>)
    requires
        forall|i: int| 0 <= i < rest.len() ==> #[trigger] rest[i] != "-i"@,
    ensures
        checked_walk(rest, accepts_output, m, found) == common_walk(rest, accepts_output, m),
    decreases rest.len(),
{
    if rest.len() > 0 {
        assert(rest[0] != "-i"@);
        if rest[0] == "-o"@ && accepts_output {
            if rest.len() >= 2 {
                let r2 = rest.skip(2);
                assert forall|i: int| 0 <= i < r2.len() implies #[trigger] r2[i] != "-i"@ by {
                    assert(r2[i] == rest[i + 2]);
                }
                lemma_checked_walk_without_input(r2, accepts_output, (m.0, Some(rest[1]), m.2), found);
            }
        } else {
            match stream_flag(rest[0]) {
                None => {},
                Some(f) => {
                    let r = rest.skip(1);
                    let k = value_count(r);
                    lemma_value_count_bound(r);
                    let r2 = r.skip(k as int);
                    assert forall|i: int| 0 <= i < r2.len() implies #[trigger] r2[i] != "-i"@ by {
                        assert(r2[i] == rest[i + 1 + k]);
                    }
                    lemma_checked_walk_without_input(
                        r2,
                        accepts_output,
                        (m.0, m.1, push_to(m.2, f, join_trimmed(r.take(k as int)))),
                        found,
                    );
                },
            }
        }
    }
}

/// What a result of `parse_common` holds, as options of the loose syntax.
pub open spec fn raw_result(r: Result<RawArgs, Error>) -> Result<RawModel, Error> {
    match r {
        Ok(raw) => Ok(raw.model()),
        Err(e) => Err(e),
    }
}

/// Whether `b` is what is left of `a` after some tokens were taken from its front.
pub open spec fn is_rest_of(b: Seq<Seq<char>>, a: Seq<Seq<char>>) -> bool {
    b.len() <= a.len() && a.skip(a.len() - b.len()) == b
}

/// Reads options in the loose syntax until the tokens run out. Every `-i` path is checked to
/// exist when it is read: the result is what `checked_walk` gives for the answers that check
/// gave, `PathNotFound` at the first path that does not exist; where every path read exists, it
/// is what `common_walk` gives. On success every token has been read; otherwise what is left is
/// the rest of the tokens from where reading stopped.
pub fn parse_common(iter: &mut Iter, accepts_output: bool) -> (r: Result<RawArgs, Error>)
    ensures
        exists|found: Seq<bool>| #[trigger]
            checked_walk(old(iter).rest(), accepts_output, no_options(), found) == raw_result(r),
        r matches Ok(raw) ==> common_walk(old(iter).rest(), accepts_output, no_options()) == Ok::<
            RawModel,
            Error,
        >(raw.model()),
        r matches Err(e) ==> e == Error::PathNotFound || common_walk(old(iter).rest(), accepts_output, no_options())
            == Err::<RawModel, Error>(e),
        common_walk(old(iter).rest(), accepts_output, no_options()) is Err ==> r is Err,
        (forall|i: int| 0 <= i < old(iter).rest().len() ==> #[trigger] old(iter).rest()[i] != "-i"@) ==> raw_result(r)
            == common_walk(old(iter).rest(), accepts_output, no_options()),
        r is Ok ==> final(iter).rest().len() == 0,
        is_rest_of(final(iter).rest(), old(iter).rest()),
{
    let mut raw = RawArgs { input: None, output: None, base: BaseOptions::new() };
    let ghost s0 = iter.rest();
    let ghost goal = common_walk(iter.rest(), accepts_output, raw.model());
    let ghost mut found: Seq<bool> = Seq::empty();
    proof {
        reveal_strlit("-i");
        reveal_strlit("-o");
        reveal_strlit("--audio");
        reveal_strlit("--video");
        reveal_strlit("--subtitle");
        reveal_strlit("--apply");
        assert(s0.skip(0) =~= s0);
        assert forall|f: Seq<bool>| #[trigger] checked_walk(s0, accepts_output, no_options(), found + f)
            == checked_walk(iter.rest(), accepts_output, raw.model(), f) by {
            assert(found + f =~= f);
        }
        if forall|i: int| 0 <= i < s0.len() ==> #[trigger] s0[i] != "-i"@ {
            assert forall|f: Seq<bool>| #[trigger] checked_walk(s0, accepts_output, no_options(), f) == common_walk(
                s0,
                accepts_output,
                no_options(),
            ) by {
                lemma_checked_walk_without_input(s0, accepts_output, no_options(), f);
            }
        }
    }
    loop
        invariant
            (forall|i: int| 0 <= i < s0.len() ==> #[trigger] s0[i] != "-i"@) ==> forall|f: Seq<bool>| #[trigger]
                checked_walk(s0, accepts_output, no_options(), f) == common_walk(s0, accepts_output, no_options()),
            common_walk(iter.rest(), accepts_output, raw.model()) == goal,
            goal == common_walk(s0, accepts_output, no_options()),
            s0 == old(iter).rest(),
            is_rest_of(iter.rest(), s0),
            forall|f: Seq<bool>| #[trigger] checked_walk(s0, accepts_output, no_options(), found + f)
                == checked_walk(iter.rest(), accepts_output, raw.model(), f),
        ensures
            goal == Ok::<RawModel, Error>(raw.model()),
            goal == common_walk(s0, accepts_output, no_options()),
            iter.rest().len() == 0,
            is_rest_of(iter.rest(), s0),
            checked_walk(s0, accepts_output, no_options(), found) == Ok::<RawModel, Error>(raw.model()),
            (forall|i: int| 0 <= i < s0.len() ==> #[trigger] s0[i] != "-i"@) ==> forall|f: Seq<bool>| #[trigger]
                checked_walk(s0, accepts_output, no_options(), f) == common_walk(s0, accepts_output, no_options()),
        decreases iter.rest().len(),
    {
        let ghost s = iter.rest();
        let ghost m = raw.model();
        let arg = match iter.peek() {
            Some(a) => a,
            None => {
                proof {
                    assert(checked_walk(s0, accepts_output, no_options(), found + Seq::empty()) == checked_walk(
                        s,
                        accepts_output,
                        m,
                        Seq::empty(),
                    ));
                    assert(found + Seq::<bool>::empty() =~= found);
                }
                break;
            },
        };
        if str_eq(arg, "-i") {
            let _ = iter.next();
            match parse_path(iter, true) {
                Ok(p) => {
                    raw.input = Some(p);
                    proof {
                        assert(s.skip(1).skip(1) =~= s.skip(2));
                        lemma_rest_step(s0, s, 2);
                        assert forall|f: Seq<bool>| #[trigger] checked_walk(
                            s0,
                            accepts_output,
                            no_options(),
                            found.push(true) + f,
                        ) == checked_walk(iter.rest(), accepts_output, raw.model(), f) by {
                            let g = seq![true] + f;
                            assert(found.push(true) + f =~= found + g);
                            assert(after_first(g) =~= f);
                            assert(checked_walk(s0, accepts_output, no_options(), found + g) == checked_walk(
                                s,
                                accepts_output,
                                m,
                                g,
                            ));
                        }
                        found = found.push(true);
                    }
                },
                Err(e) => {
                    proof {
                        if e == Error::PathNotFound {
                            let g = seq![false];
                            assert(checked_walk(s0, accepts_output, no_options(), found + g) == checked_walk(
                                s,
                                accepts_output,
                                m,
                                g,
                            ));
                            assert(checked_walk(s0, accepts_output, no_options(), found + g) == raw_result(
                                Err::<RawArgs, Error>(e),
                            ));
                            lemma_rest_step(s0, s, 2);
                            assert(s.skip(1).skip(1) =~= s.skip(2));
                        } else {
                            assert(checked_walk(s0, accepts_output, no_options(), found + Seq::empty())
                                == checked_walk(s, accepts_output, m, Seq::empty()));
                            assert(checked_walk(s0, accepts_output, no_options(), found + Seq::empty())
                                == raw_result(Err::<RawArgs, Error>(e)));
                            lemma_rest_step(s0, s, 1);
                        }
                    }
                    return Err(e);
                },
            }
        } else if str_eq(arg, "-o") && accepts_output {
            let _ = iter.next();
            match parse_path(iter, false) {
                Ok(p) => {
                    raw.output = Some(p);
                    proof {
                        assert(s.skip(1).skip(1) =~= s.skip(2));
                        lemma_rest_step(s0, s, 2);
                        assert forall|f: Seq<bool>| #[trigger] checked_walk(s0, accepts_output, no_options(), found + f)
                            == checked_walk(iter.rest(), accepts_output, raw.model(), f) by {
                            assert(checked_walk(s0, accepts_output, no_options(), found + f) == checked_walk(
                                s,
                                accepts_output,
                                m,
                                f,
                            ));
                        }
                    }
                },
                Err(e) => {
                    proof {
                        assert(checked_walk(s0, accepts_output, no_options(), found + Seq::empty()) == checked_walk(
                            s,
                            accepts_output,
                            m,
                            Seq::empty(),
                        ));
                        assert(checked_walk(s0, accepts_output, no_options(), found + Seq::empty()) == raw_result(
                            Err::<RawArgs, Error>(e),
                        ));
                        lemma_rest_step(s0, s, 1);
                    }
                    return Err(e);
                },
            }
        } else if str_eq(arg, "--audio") {
            iter.expect("--audio")?;
            proof {
                lemma_value_count_bound(iter.rest());
            }
            let v = iter.take_until_flag()?;
            let ghost l0 = raw.base.audio@;
            raw.base.audio.push(v);
            assert(texts(raw.base.audio@) =~= texts(l0).push(v@));
            proof {
                lemma_stream_step(s0, s, m, raw.model(), Flag::Audio, accepts_output, found);
            }
        } else if str_eq(arg, "--video") {
            iter.expect("--video")?;
            proof {
                lemma_value_count_bound(iter.rest());
            }
            let v = iter.take_until_flag()?;
            let ghost l0 = raw.base.video@;
            raw.base.video.push(v);
            assert(texts(raw.base.video@) =~= texts(l0).push(v@));
            proof {
                lemma_stream_step(s0, s, m, raw.model(), Flag::Video, accepts_output, found);
            }
        } else if str_eq(arg, "--subtitle") {
            iter.expect("--subtitle")?;
            proof {
                lemma_value_count_bound(iter.rest());
            }
            let v = iter.take_until_flag()?;
            let ghost l0 = raw.base.subtitle@;
            raw.base.subtitle.push(v);
            assert(texts(raw.base.subtitle@) =~= texts(l0).push(v@));
            proof {
                lemma_stream_step(s0, s, m, raw.model(), Flag::Subtitle, accepts_output, found);
            }
        } else if str_eq(arg, "--apply") {
            iter.expect("--apply")?;
            proof {
                lemma_value_count_bound(iter.rest());
            }
            let v = iter.take_until_flag()?;
            let ghost l0 = raw.base.apply@;
            raw.base.apply.push(v);
            assert(texts(raw.base.apply@) =~= texts(l0).push(v@));
            proof {
                lemma_stream_step(s0, s, m, raw.model(), Flag::Apply, accepts_output, found);
            }
        } else {
            proof {
                assert(stream_flag(s[0]) is None);
                assert(checked_walk(s0, accepts_output, no_options(), found + Seq::empty()) == checked_walk(
                    s,
                    accepts_output,
                    m,
                    Seq::empty(),
                ));
                assert(checked_walk(s0, accepts_output, no_options(), found + Seq::empty()) == raw_result(
                    Err::<RawArgs, Error>(Error::UnexpectedArgument),
                ));
                assert(s0.skip(s0.len() - s.len()) == s);
            }
            return Err(Error::UnexpectedArgument);
        }
    }
    proof {
        assert(checked_walk(s0, accepts_output, no_options(), found) == raw_result(Ok::<RawArgs, Error>(raw)));
    }
    Ok(raw)
}

/// A per-stream flag and its values, read from `s`, keep the loop's account of the reading.
proof fn lemma_stream_step(
    s0: Seq<Seq<char>>,
    s: Seq<Seq<char>>,
    m: RawModel,
    m2: RawModel,
    flag: Flag,
    accepts_output: bool,
    found: Seq<bool>,
)
    requires
        s.len() > 0,
        stream_flag(s[0]) == Some(flag),
        !(s[0] == "-i"@),
        !(s[0] == "-o"@ && accepts_output),
        is_rest_of(s, s0),
        m2 == (m.0, m.1, push_to(m.2, flag, join_trimmed(s.skip(1).take(value_count(s.skip(1)) as int)))),
        forall|f: Seq<bool>| #[trigger] checked_walk(s0, accepts_output, no_options(), found + f)
            == checked_walk(s, accepts_output, m, f),
    ensures
        is_rest_of(s.skip(1).skip(value_count(s.skip(1)) as int), s0),
        forall|f: Seq<bool>| #[trigger] checked_walk(s0, accepts_output, no_options(), found + f)
            == checked_walk(s.skip(1).skip(value_count(s.skip(1)) as int), accepts_output, m2, f),
{
    let r1 = s.skip(1);
    let k = value_count(r1);
    lemma_value_count_bound(r1);
    lemma_rest_step(s0, s, 1 + k as int);
    assert(r1.skip(k as int) =~= s.skip(1 + k as int));
    assert forall|f: Seq<bool>| #[trigger] checked_walk(s0, accepts_output, no_options(), found + f)
        == checked_walk(r1.skip(k as int), accepts_output, m2, f) by {
        assert(checked_walk(s0, accepts_output, no_options(), found + f) == checked_walk(s, accepts_output, m, f));
    }
}

/// Taking `k` more tokens from the front keeps what is left a rest of the tokens.
proof fn lemma_rest_step(s0: Seq<Seq<char>>, s: Seq<Seq<char>>, k: int)
    requires
        is_rest_of(s, s0),
        0 <= k <= s.len(),
    ensures
        is_rest_of(s.skip(k), s0),
{
    assert(s0.skip(s0.len() - s.skip(k).len()) =~= s.skip(k));
}

/// What the loose syntax gives from `ts`: the options, with an input required and, where
/// `needs_output`, an output too.
pub open spec fn loose(ts: Seq<Seq<char>>, accepts_output: bool, needs_output: bool) -> Result<RawModel, Error> {
    match common_walk(ts, accepts_output, (None, None, (Seq::empty(), Seq::empty(), Seq::empty(), Seq::empty()))) {
        Err(e) => Err(e),
        Ok(m) => if m.0 is None {
            Err(Error::MissingInput)
        } else if needs_output && m.1 is None {
            Err(Error::MissingOutput)
        } else {
            Ok(m)
        },
    }
}

/// What the loose syntax gives from `ts` where `found` lists whether each `-i` path read
/// exists: `checked_walk`'s options, with an input required and, where `needs_output`, an
/// output too.
pub open spec fn loose_checked(ts: Seq<Seq<char>>, accepts_output: bool, needs_output: bool, found: Seq<bool>) -> Result<
    RawModel,
    Error,
> {
    match checked_walk(ts, accepts_output, no_options(), found) {
        Err(e) => Err(e),
        Ok(m) => if m.0 is None {
            Err(Error::MissingInput)
        } else if needs_output && m.1 is None {
            Err(Error::MissingOutput)
        } else {
            Ok(m)
        },
    }
}

/// Whether `r` is what the loose syntax gives for `ts`: what `loose_checked` gives for the
/// answers of the existence checks of the `-i` paths read; so an error the walk gives,
/// `PathNotFound` where an `-i` path read does not exist, or options that match.
pub open spec fn loose_outcome(r: Result<RawModel, Error>, ts: Seq<Seq<char>>, accepts_output: bool, needs_output: bool) -> bool {
    &&& exists|found: Seq<bool>| #[trigger] loose_checked(ts, accepts_output, needs_output, found) == r
    &&& r matches Ok(m) ==> loose(ts, accepts_output, needs_output) == Ok::<RawModel, Error>(m)
    &&& r matches Err(e) ==> e == Error::PathNotFound || loose(ts, accepts_output, needs_output) == Err::<
        RawModel,
        Error,
    >(e)
    &&& loose(ts, accepts_output, needs_output) is Err ==> r is Err
}

/// What a parsed command line holds, as options of the loose syntax, with which command.
pub open spec fn cli_raw(r: Result<Cli, Error>) -> (int, Result<RawModel, Error>) {
    match r {
        Err(e) => (-1, Err(e)),
        Ok(Cli::Command(Command::Probe(p))) => (0, Ok((Some(p.input@), opt_text(p.output), p.base.model()))),
        Ok(Cli::Command(Command::Play(p))) => (1, Ok((Some(p.input@), opt_text(p.output), p.base.model()))),
        Ok(Cli::Convert(c)) => (2, Ok((Some(c.input@), Some(c.output@), c.base.model()))),
    }
}

impl Cli {
    /// Parses a command line in the loose syntax, the program's name first: `probe` and
    /// `play` name their commands (only `probe` and conversions take `-o`), anything else is a
    /// conversion, which needs an output.
    pub fn parse(args: Vec<String>) -> (r: Result<Cli, Error>)
        ensures
            ({
                let ts = trim_all(texts(args@).skip(if args@.len() > 0 { 1int } else { 0 }));
                let (kind, raw) = cli_raw(r);
                &&& ts.len() > 0 && ts[0] == "probe"@ ==> loose_outcome(raw, ts.skip(1), true, false) && (r is Ok ==> kind
                    == 0 && (r matches Ok(Cli::Command(Command::Probe(p))) && p.json is None))
                &&& ts.len() > 0 && ts[0] == "play"@ ==> loose_outcome(raw, ts.skip(1), false, false) && (r is Ok ==> kind
                    == 1 && (r matches Ok(Cli::Command(Command::Play(p))) && p.output is None))
                &&& !(ts.len() > 0 && (ts[0] == "probe"@ || ts[0] == "play"@)) ==> loose_outcome(raw, ts, true, true) && (
                r is Ok ==> kind == 2)
            }),
    {
        let mut iter = Iter::new(args);
        let ghost ts = iter.rest();
        let is_probe = match iter.peek() {
            Some(t) => str_eq(t, "probe"),
            None => false,
        };
        let is_play = match iter.peek() {
            Some(t) => str_eq(t, "play"),
            None => false,
        };
        proof {
            reveal_strlit("play");
            reveal_strlit("probe");
            assert("play"@ != "probe"@) by {
                assert("play"@[1] != "probe"@[1]);
            }
        }
        if is_probe {
            parse_probe_subcommand(&mut iter)
        } else if is_play {
            parse_play_subcommand(&mut iter)
        } else {
            parse_default_subcommand(&mut iter)
        }
    }
}

/// `probe` and its options: an input is required, `-o` is taken.
fn parse_probe_subcommand(iter: &mut Iter) -> (r: Result<Cli, Error>)
    requires
        old(iter).rest().len() > 0,
    ensures
        loose_outcome(cli_raw(r).1, old(iter).rest().skip(1), true, false),
        r is Ok ==> cli_raw(r).0 == 0 && (r matches Ok(Cli::Command(Command::Probe(p))) && p.json is None),
{
    let _ = iter.next();
    let ghost ts = iter.rest();
    let pr = parse_common(iter, true);
    let ghost found = choose|f: Seq<bool>| #[trigger] checked_walk(ts, true, no_options(), f) == raw_result(pr);
    assert(checked_walk(ts, true, no_options(), found) == raw_result(pr));
    let raw = pr?;
    let input = match raw.input {
        Some(i) => i,
        None => {
            assert(loose_checked(ts, true, false, found) == Err::<RawModel, Error>(Error::MissingInput));
            return Err(Error::MissingInput);
        },
    };
    assert(loose_checked(ts, true, false, found) == Ok::<RawModel, Error>(raw.model()));
    Ok(Cli::Command(Command::Probe(ProbeCommand { input, output: raw.output, json: None, base: raw.base })))
}

/// `play` and its options: an input is required, `-o` is not taken.
fn parse_play_subcommand(iter: &mut Iter) -> (r: Result<Cli, Error>)
    requires
        old(iter).rest().len() > 0,
    ensures
        loose_outcome(cli_raw(r).1, old(iter).rest().skip(1), false, false),
        r is Ok ==> cli_raw(r).0 == 1 && (r matches Ok(Cli::Command(Command::Play(p))) && p.output is None),
{
    let _ = iter.next();
    let ghost ts = iter.rest();
    let pr = parse_common(iter, false);
    let ghost found = choose|f: Seq<bool>| #[trigger] checked_walk(ts, false, no_options(), f) == raw_result(pr);
    assert(checked_walk(ts, false, no_options(), found) == raw_result(pr));
    let raw = pr?;
    let input = match raw.input {
        Some(i) => i,
        None => {
            assert(loose_checked(ts, false, false, found) == Err::<RawModel, Error>(Error::MissingInput));
            return Err(Error::MissingInput);
        },
    };
    assert(loose_checked(ts, false, false, found) == Ok::<RawModel, Error>(raw.model()));
    let r = Cli::Command(Command::Play(PlayCommand { input, output: None, base: raw.base }));
    assert(raw.model().1 is None) by {
        lemma_no_output(ts, (None, None, (Seq::empty(), Seq::empty(), Seq::empty(), Seq::empty())));
    }
    Ok(r)
}

/// A conversion: an input and an output are required.
fn parse_default_subcommand(iter: &mut Iter) -> (r: Result<Cli, Error>)
    ensures
        loose_outcome(cli_raw(r).1, old(iter).rest(), true, true),
        r is Ok ==> cli_raw(r).0 == 2,
{
    let ghost ts = iter.rest();
    let pr = parse_common(iter, true);
    let ghost found = choose|f: Seq<bool>| #[trigger] checked_walk(ts, true, no_options(), f) == raw_result(pr);
    assert(checked_walk(ts, true, no_options(), found) == raw_result(pr));
    let raw = pr?;
    let input = match raw.input {
        Some(i) => i,
        None => {
            assert(loose_checked(ts, true, true, found) == Err::<RawModel, Error>(Error::MissingInput));
            return Err(Error::MissingInput);
        },
    };
    let output = match raw.output {
        Some(o) => o,
        None => {
            assert(loose_checked(ts, true, true, found) == Err::<RawModel, Error>(Error::MissingOutput));
            return Err(Error::MissingOutput);
        },
    };
    assert(loose_checked(ts, true, true, found) == Ok::<RawModel, Error>(raw.model()));
    Ok(Cli::Convert(ConvertOptions { input, output, base: raw.base }))
}

/// Where outputs are not accepted, the walk sets none.
pub proof fn lemma_no_output(ts: Seq<Seq<char>>, m: RawModel)
    requires
        m.1 is None,
    ensures
        common_walk(ts, false, m) matches Ok(m2) ==> m2.1 is None,
    decreases ts.len(),
{
    if ts.len() > 0 {
        if ts[0] == "-i"@ {
            if ts.len() >= 2 {
                lemma_no_output(ts.skip(2), (Some(ts[1]), m.1, m.2));
            }
        } else {
            match stream_flag(ts[0]) {
                None => {},
                Some(f) => {
                    let r = ts.skip(1);
                    let k = value_count(r);
                    lemma_value_count_bound(r);
                    lemma_no_output(r.skip(k as int), (m.0, m.1, push_to(m.2, f, join_trimmed(r.take(k as int)))));
                },
            }
        }
    }
}

} // verus!
