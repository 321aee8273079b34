//! The command line: the engine name first, then the flags.
use vstd::prelude::*;
use crate::engine::{Engine, engine_of_name};
use crate::text::same_text;
use lexopt::ValueExt;

verus! {

/// The argument lexer of `lexopt`.
#[verifier::external_type_specification]
#[verifier::external_body]
pub struct ExParser(lexopt::Parser);

/// The error with which the argument lexer refuses a command line.
#[verifier::external_type_specification]
#[verifier::external_body]
pub struct ExLexerError(lexopt::Error);

/// One argument of the command line, as the argument lexer hands it over.
#[derive(Clone, Debug, PartialEq, Eq)]
pub enum CliArg {
    /// A short option, without its dash.
    Short(char),
    /// A long option, without its dashes.
    Long(String),
    /// A free-standing value.
    Value(String),
}

/// Why a command line is refused.
#[derive(Clone, Debug, PartialEq, Eq)]
pub enum CliError {
    /// The argument lexer refused the command line; its own words are kept.
    Lexer(String),
    /// The command line is empty.
    MissingEngine,
    /// An option stands where the engine name belongs.
    EngineExpected(CliArg),
    /// The first argument names no engine.
    UnrecognizedEngine(String),
    /// Help was asked for: the answer is the usage line.
    Usage,
    /// An argument that is no known flag.
    Unexpected(CliArg),
}

/// What a flag asks for.
#[derive(Clone, Copy, Debug, PartialEq, Eq, Structural)]
pub enum Flag {
    Help,
    Quiet,
    Version,
}

/// What the command line asks for.
#[derive(Clone, Copy, Debug, PartialEq, Eq, Structural)]
pub struct Invocation {
    pub engine: Engine,
    /// Run the workload in full, but write no samples.
    pub quiet: bool,
    /// Print the version and leave, without reading any input.
    pub version: bool,
}

/// The flag that an argument is: `-h` and `--help`, `-q` and `--quiet`,
/// `--version`. Any other argument is none.
pub open spec fn flag_of(arg: CliArg) -> Option<Flag> {
    match arg {
        CliArg::Short(c) => if c == 'h' {
            Some(Flag::Help)
        } else if c == 'q' {
            Some(Flag::Quiet)
        } else {
            None
        },
        CliArg::Long(name) => if name@ == "help"@ {
            Some(Flag::Help)
        } else if name@ == "quiet"@ {
            Some(Flag::Quiet)
        } else if name@ == "version"@ {
            Some(Flag::Version)
        } else {
            None
        },
        CliArg::Value(_) => None,
    }
}

/// The flag that an argument is, if it is one.
pub fn flag(arg: &CliArg) -> (r: Option<Flag>)
    ensures
        r == flag_of(*arg),
{
    match arg {
        CliArg::Short(c) => if *c == 'h' {
            Some(Flag::Help)
        } else if *c == 'q' {
            Some(Flag::Quiet)
        } else {
            None
        },
        CliArg::Long(name) => if same_text(name.as_str(), "help") {
            Some(Flag::Help)
        } else if same_text(name.as_str(), "quiet") {
            Some(Flag::Quiet)
        } else if same_text(name.as_str(), "version") {
            Some(Flag::Version)
        } else {
            None
        },
        CliArg::Value(_) => None,
    }
}

impl Invocation {
    /// What the first argument makes of an empty command line: it must
    /// be a value that names an engine.
    pub open spec fn spec_start(first: Option<CliArg>) -> Result<Invocation, CliError> {
        match first {
            None => Err(CliError::MissingEngine),
            Some(CliArg::Value(name)) => match engine_of_name(name@) {
                Some(engine) => Ok(Invocation { engine, quiet: false, version: false }),
                None => Err(CliError::UnrecognizedEngine(name)),
            },
            Some(arg) => Err(CliError::EngineExpected(arg)),
        }
    }

    /// What one more argument makes of the command line so far.
    pub open spec fn spec_accept(self, arg: CliArg) -> Result<Invocation, CliError> {
        match flag_of(arg) {
            Some(Flag::Help) => Err(CliError::Usage),
            Some(Flag::Quiet) => Ok(Invocation { quiet: true, ..self }),
            Some(Flag::Version) => Ok(Invocation { version: true, ..self }),
            None => Err(CliError::Unexpected(arg)),
        }
    }

    /// What the arguments from `from` on make of the command line so far:
    /// the first refusal ends it.
    pub open spec fn spec_accept_all(self, args: Seq<CliArg>, from: int) -> Result<
        Invocation,
        CliError,
    >
        decreases args.len() - from,
    {
        if from < 0 || from >= args.len() {
            Ok(self)
        } else {
            match self.spec_accept(args[from]) {
                Ok(next) => next.spec_accept_all(args, from + 1),
                Err(e) => Err(e),
            }
        }
    }

    /// What a whole command line asks for.
    pub open spec fn spec_parse(args: Seq<CliArg>) -> Result<Invocation, CliError> {
        if args.len() == 0 {
            Err(CliError::MissingEngine)
        } else {
            match Self::spec_start(Some(args[0])) {
                Ok(inv) => inv.spec_accept_all(args, 1),
                Err(e) => Err(e),
            }
        }
    }

    /// Reads the first argument, which selects the engine.
    pub fn start(first: Option<CliArg>) -> (r: Result<Invocation, CliError>)
        ensures
            r == Self::spec_start(first),
    {
        match first {
            None => Err(CliError::MissingEngine),
            Some(CliArg::Value(name)) => match Engine::parse(name.as_str()) {
                Some(engine) => Ok(Invocation { engine, quiet: false, version: false }),
                None => Err(CliError::UnrecognizedEngine(name)),
            },
            Some(arg) => Err(CliError::EngineExpected(arg)),
        }
    }

    /// Reads one more argument: a flag is taken in, anything else is
    /// refused.
    pub fn accept(self, arg: CliArg) -> (r: Result<Invocation, CliError>)
        ensures
            r == self.spec_accept(arg),
    {
        match flag(&arg) {
            Some(Flag::Help) => Err(CliError::Usage),
            Some(Flag::Quiet) => Ok(Invocation { engine: self.engine, quiet: true, version: self.version }),
            Some(Flag::Version) => Ok(Invocation { engine: self.engine, quiet: self.quiet, version: true }),
            None => Err(CliError::Unexpected(arg)),
        }
    }

    /// Reads a whole command line, left to right.
    pub fn parse(args: Vec<CliArg>) -> (r: Result<Invocation, CliError>)
        ensures
            r == Self::spec_parse(args@),
    {
        let ghost all = args@;
        let mut rest = args;
        let mut state: Option<Invocation> = None;
        let mut i: usize = 0;
        let n = rest.len();
        let mut out: Result<Invocation, CliError> = Err(CliError::MissingEngine);
        while i < n
            invariant
                i <= n,
                all == args@,
                n == all.len(),
                rest@.len() == n,
                forall|j: int| i <= j < n ==> rest@[j] == all[j],
                i == 0 ==> state.is_none() && out == Err::<Invocation, CliError>(
                    CliError::MissingEngine,
                ),
                i > 0 ==> state.is_some() && out == Ok::<Invocation, CliError>(state.unwrap())
                    && Self::spec_parse(all) == state.unwrap().spec_accept_all(all, i as int),
            decreases n - i,
        {
            let mut arg = CliArg::Short('-');
            rest.set_and_swap(i, &mut arg);
            let step = match state {
                None => Self::start(Some(arg)),
                Some(inv) => inv.accept(arg),
            };
            match step {
                Err(e) => {
                    return Err(e);
                },
                Ok(inv) => {
                    state = Some(inv);
                    out = Ok(inv);
                },
            }
            i = i + 1;
        }
        proof {
            if n > 0 {
                assert(state.unwrap().spec_accept_all(all, n as int) == Ok::<Invocation, CliError>(
                    state.unwrap(),
                ));
            }
        }
        out
    }
}

/// What a lexer has still to yield, in order: an argument, or `None`
/// where it refuses what it finds at that point.
pub uninterp spec fn pending(lexer: lexopt::Parser) -> Seq<Option<CliArg>>;

/// What a lexer yields for the given raw arguments, the program name not
/// among them.
pub uninterp spec fn lexed(args: Seq<Seq<char>>) -> Seq<Option<CliArg>>;

/// Calls `lexopt::Parser::from_args`: a lexer over the given raw
/// arguments, which has yet to yield all that it makes of them.
#[verifier::external_body]
fn lexer_over(args: Vec<String>) -> (lexer: lexopt::Parser)
    ensures
        pending(lexer) == lexed(args@.map_values(|a: String| a@)),
{
    lexopt::Parser::from_args(args)
}

/// Calls `lexopt::Parser::next`: the lexer yields the first of what it
/// had pending and keeps the rest. With nothing pending it yields no
/// argument, and goes on doing so.
#[verifier::external_body]
fn next_arg(lexer: &mut lexopt::Parser) -> (r: Result<Option<CliArg>, lexopt::Error>)
    ensures
        pending(*old(lexer)).len() == 0 ==> r is Ok && r->Ok_0.is_none() && pending(
            *final(lexer),
        ).len() == 0,
        pending(*old(lexer)).len() > 0 ==> pending(*final(lexer)) == pending(
            *old(lexer),
        ).drop_first(),
        pending(*old(lexer)).len() > 0 ==> (r is Ok <==> pending(*old(lexer))[0].is_some()),
        pending(*old(lexer)).len() > 0 && r is Ok ==> r->Ok_0 == pending(*old(lexer))[0],
{
    Ok(
        match lexer.next()? {
            None => None,
            Some(lexopt::Arg::Short(c)) => Some(CliArg::Short(c)),
            Some(lexopt::Arg::Long(name)) => Some(CliArg::Long(name.to_string())),
            Some(lexopt::Arg::Value(v)) => Some(CliArg::Value(v.string()?)),
        },
    )
}

/// Calls `to_string` on a `lexopt::Error`: the lexer's own words for its
/// refusal. Nothing is claimed of them.
#[verifier::external_body]
fn lexer_words(e: &lexopt::Error) -> String {
    e.to_string()
}

/// What the lexed arguments from `from` on make of the command line so
/// far. The first refusal ends it: `Err(None)` where the lexer refuses,
/// `Err(Some(..))` where an argument has no place.
pub open spec fn read_from(inv: Invocation, items: Seq<Option<CliArg>>, from: int) -> Result<
    Invocation,
    Option<CliError>,
>
    decreases items.len() - from,
{
    if from < 0 || from >= items.len() {
        Ok(inv)
    } else {
        match items[from] {
            None => Err(None),
            Some(arg) => match inv.spec_accept(arg) {
                Ok(next) => read_from(next, items, from + 1),
                Err(e) => Err(Some(e)),
            },
        }
    }
}

/// What a lexed command line asks for: the engine first, then the flags.
pub open spec fn read(items: Seq<Option<CliArg>>) -> Result<Invocation, Option<CliError>> {
    if items.len() == 0 {
        Err(Some(CliError::MissingEngine))
    } else {
        match items[0] {
            None => Err(None),
            Some(arg) => match Invocation::spec_start(Some(arg)) {
                Ok(inv) => read_from(inv, items, 1),
                Err(e) => Err(Some(e)),
            },
        }
    }
}

/// Whether a result is the one expected: the same invocation, the same
/// refusal, or a refusal by the lexer, in whatever words.
pub open spec fn agrees(
    r: Result<Invocation, CliError>,
    expected: Result<Invocation, Option<CliError>>,
) -> bool {
    match expected {
        Ok(inv) => r == Ok::<Invocation, CliError>(inv),
        Err(Some(e)) => r == Err::<Invocation, CliError>(e),
        Err(None) => r is Err && r->Err_0 is Lexer,
    }
}

/// Reads the raw arguments of a command line, the program name not
/// among them: lexes them one by one and takes each in, up to the first
/// refusal.
pub fn parse_args(args: Vec<String>) -> (r: Result<Invocation, CliError>)
    ensures
        agrees(r, read(lexed(args@.map_values(|a: String| a@)))),
{
    let ghost items = lexed(args@.map_values(|a: String| a@));
    let mut lexer = lexer_over(args);
    let first = match next_arg(&mut lexer) {
        Ok(first) => first,
        Err(e) => {
            return Err(CliError::Lexer(lexer_words(&e)));
        },
    };
    let mut inv = match Invocation::start(first) {
        Ok(inv) => inv,
        Err(e) => {
            return Err(e);
        },
    };
    let ghost mut at: int = 1;
    loop
        invariant
            1 <= at <= items.len(),
            pending(lexer) == items.subrange(at, items.len() as int),
            read(items) == read_from(inv, items, at),
            items == lexed(args@.map_values(|a: String| a@)),
        decreases items.len() - at,
    {
        let step = next_arg(&mut lexer);
        proof {
            if at < items.len() {
                assert(items.subrange(at, items.len() as int)[0] == items[at]);
                assert(items.subrange(at, items.len() as int).drop_first() =~= items.subrange(
                    at + 1,
                    items.len() as int,
                ));
            }
        }
        match step {
            Err(e) => {
                return Err(CliError::Lexer(lexer_words(&e)));
            },
            Ok(None) => {
                return Ok(inv);
            },
            Ok(Some(arg)) => match inv.accept(arg) {
                Ok(next) => {
                    inv = next;
                },
                Err(e) => {
                    return Err(e);
                },
            },
        }
        proof {
            at = at + 1;
        }
    }
}

/// Where the lexer refuses nothing, reading the lexed arguments gives
/// what parsing them as a list gives.
pub proof fn lemma_read_is_parse(items: Seq<Option<CliArg>>, args: Seq<CliArg>)
    requires
        items.len() == args.len(),
        forall|i: int| 0 <= i < items.len() ==> items[i] == Some(args[i]),
    ensures
        read(items) == match Invocation::spec_parse(args) {
            Ok(inv) => Ok::<Invocation, Option<CliError>>(inv),
            Err(e) => Err(Some(e)),
        },
{
    if items.len() > 0 {
        match Invocation::spec_start(Some(args[0])) {
            Ok(inv) => lemma_read_from_is_accept_all(inv, items, args, 1),
            Err(_) => {},
        }
    }
}

/// The same, from a position on.
proof fn lemma_read_from_is_accept_all(
    inv: Invocation,
    items: Seq<Option<CliArg>>,
    args: Seq<CliArg>,
    from: int,
)
    requires
        0 <= from,
        items.len() == args.len(),
        forall|i: int| 0 <= i < items.len() ==> items[i] == Some(args[i]),
    ensures
        read_from(inv, items, from) == match inv.spec_accept_all(args, from) {
            Ok(last) => Ok::<Invocation, Option<CliError>>(last),
            Err(e) => Err(Some(e)),
        },
    decreases items.len() - from,
{
    if from < items.len() {
        match inv.spec_accept(args[from]) {
            Ok(next) => lemma_read_from_is_accept_all(next, items, args, from + 1),
            Err(_) => {},
        }
    }
}

/// The quiet flag changes only whether samples are written: the engine
/// and the version request stay as they were.
pub proof fn lemma_quiet_changes_nothing_else(inv: Invocation, arg: CliArg)
    requires
        flag_of(arg) == Some(Flag::Quiet),
    ensures
        inv.spec_accept(arg) == Ok::<Invocation, CliError>(
            Invocation { engine: inv.engine, quiet: true, version: inv.version },
        ),
{
}

} // verus!
