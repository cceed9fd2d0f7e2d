use vstd::prelude::*;

verus! {

/// A parsed command line: a command, or a conversion.
#[derive(Debug, Clone)]
pub enum Cli {
    Command(Command),
    Convert(ConvertOptions),
}

/// A command other than a conversion.
#[derive(Debug, Clone)]
pub enum Command {
    Probe(ProbeCommand),
    Play(PlayCommand),
}

/// Options of `play`.
#[derive(Debug, Clone)]
pub struct PlayCommand {
    pub input: String,
    pub output: Option<String>,
    pub base: BaseOptions,
}

/// Options of `probe`.
#[derive(Debug, Clone)]
pub struct ProbeCommand {
    pub input: String,
    pub output: Option<String>,
    pub json: Option<JsonOption>,
    pub base: BaseOptions,
}

/// How `probe` prints JSON.
#[derive(Debug, Clone, Copy, PartialEq, Eq)]
pub enum JsonOption {
    Pretty,
    Raw,
}

impl Default for JsonOption {
    /// Raw.
    fn default() -> (j: Self)
        ensures
            j == JsonOption::Raw,
    {
        JsonOption::Raw
    }
}

/// Options of a conversion.
#[derive(Debug, Clone)]
pub struct ConvertOptions {
    pub input: String,
    pub output: String,
    pub base: BaseOptions,
}

/// The per-stream options every command takes, one string per occurrence of the flag.
#[derive(Debug, Clone)]
pub struct BaseOptions {
    pub audio: Vec<String>,
    pub video: Vec<String>,
    pub subtitle: Vec<String>,
    pub apply: Vec<String>,
}

/// The texts of strings.
pub open spec fn texts(v: Seq<String>) -> Seq<Seq<char>> {
    v.map_values(|s: String| s@)
}

/// The four option lists as texts.
pub type BaseModel = (Seq<Seq<char>>, Seq<Seq<char>>, Seq<Seq<char>>, Seq<Seq<char>>);

impl BaseOptions {
    /// The option lists as texts: audio, video, subtitle, apply.
    pub open spec fn model(&self) -> BaseModel {
        (texts(self.audio@), texts(self.video@), texts(self.subtitle@), texts(self.apply@))
    }

    /// No options.
    pub fn new() -> (b: Self)
        ensures
            b.model() == (Seq::<Seq<char>>::empty(), Seq::<Seq<char>>::empty(), Seq::<Seq<char>>::empty(), Seq::<
                Seq<char>,
            >::empty()),
    {
        let b = BaseOptions { audio: Vec::new(), video: Vec::new(), subtitle: Vec::new(), apply: Vec::new() };
        assert(b.model().0 =~= Seq::<Seq<char>>::empty());
        assert(b.model().1 =~= Seq::<Seq<char>>::empty());
        assert(b.model().2 =~= Seq::<Seq<char>>::empty());
        assert(b.model().3 =~= Seq::<Seq<char>>::empty());
        b
    }
}

impl Default for BaseOptions {
    /// No options.
    fn default() -> (b: Self)
        ensures
            b.model() == (Seq::<Seq<char>>::empty(), Seq::<Seq<char>>::empty(), Seq::<Seq<char>>::empty(), Seq::<
                Seq<char>,
            >::empty()),
    {
        BaseOptions::new()
    }
}

} // verus!
