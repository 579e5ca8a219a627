//! The command-line grammar: an optional data directory, then one subcommand
//! with its arguments.

use vstd::prelude::*;
use crate::text::{starts_with, str_eq};

verus! {

/// The parsed command line.
#[derive(Debug)]
pub struct Cli {
    /// Custom data directory path (defaults to an OS-specific data directory).
    /// This directory holds todos.db and todos.toml.
    pub data_dir: Option<String>,
    pub command: Commands,
}

/// The subcommands.
#[derive(Debug)]
pub enum Commands {
    /// Add a new todo item.
    Add { content: String },
    /// Mark a todo as finished.
    Finish { content: String },
    /// Edit an existing todo's content.
    Edit {
        /// The content to search for.
        find: String,
        /// The new content to replace it with.
        replace: String,
    },
    /// Clean all finished todos.
    Clean,
    /// List all the todos.
    List,
    /// Run the terminal interface.
    Tui,
}

/// Why a command line was not accepted.
#[derive(Debug, Clone, Copy, PartialEq, Eq, Structural)]
pub enum CliError {
    /// Help was asked for (`-h`, `--help`, the `help` subcommand, or no arguments at all).
    HelpRequested,
    /// The version was asked for (`-V`, `--version`).
    VersionRequested,
    /// Options were given but no subcommand.
    MissingSubcommand,
    /// The first word that is not an option names no subcommand.
    UnknownSubcommand,
    /// A word that starts with `-` is no option known in its place.
    UnknownArgument,
    /// The data directory option has no value.
    MissingValue,
    /// The data directory option was given twice.
    RepeatedArgument,
    /// The subcommand lacks an argument.
    MissingArgument,
    /// The subcommand got more arguments than it takes.
    UnexpectedArgument,
}

/// The subcommand names.
#[derive(Debug, Clone, Copy, PartialEq, Eq, Structural)]
pub enum CommandKind {
    Add,
    Finish,
    Edit,
    Clean,
    List,
    Tui,
}

/// A subcommand with its arguments as character sequences.
pub enum CommandView {
    Add(Seq<char>),
    Finish(Seq<char>),
    Edit(Seq<char>, Seq<char>),
    Clean,
    List,
    Tui,
}

/// A command line as character sequences.
pub struct CliView {
    pub data_dir: Option<Seq<char>>,
    pub command: CommandView,
}

impl Commands {
    pub open spec fn view(&self) -> CommandView {
        match self {
            Commands::Add { content } => CommandView::Add(content@),
            Commands::Finish { content } => CommandView::Finish(content@),
            Commands::Edit { find, replace } => CommandView::Edit(find@, replace@),
            Commands::Clean => CommandView::Clean,
            Commands::List => CommandView::List,
            Commands::Tui => CommandView::Tui,
        }
    }
}

impl Cli {
    pub open spec fn view(&self) -> CliView {
        CliView {
            data_dir: match self.data_dir {
                Some(d) => Some(d@),
                None => None,
            },
            command: self.command.view(),
        }
    }
}

/// The subcommand that a word names.
pub open spec fn command_kind(name: Seq<char>) -> Option<CommandKind> {
    if name == "add"@ {
        Some(CommandKind::Add)
    } else if name == "finish"@ {
        Some(CommandKind::Finish)
    } else if name == "edit"@ {
        Some(CommandKind::Edit)
    } else if name == "clean"@ {
        Some(CommandKind::Clean)
    } else if name == "list"@ {
        Some(CommandKind::List)
    } else if name == "tui"@ {
        Some(CommandKind::Tui)
    } else {
        None
    }
}

/// How many arguments a subcommand takes.
pub open spec fn arity(kind: CommandKind) -> nat {
    match kind {
        CommandKind::Add | CommandKind::Finish => 1,
        CommandKind::Edit => 2,
        _ => 0,
    }
}

/// The subcommand with the given arguments.
pub open spec fn command_of(kind: CommandKind, args: Seq<Seq<char>>) -> CommandView {
    match kind {
        CommandKind::Add => CommandView::Add(args[0]),
        CommandKind::Finish => CommandView::Finish(args[0]),
        CommandKind::Edit => CommandView::Edit(args[0], args[1]),
        CommandKind::Clean => CommandView::Clean,
        CommandKind::List => CommandView::List,
        CommandKind::Tui => CommandView::Tui,
    }
}

/// A word that stands for an option: it starts with `-` and is more than `-` alone.
pub open spec fn looks_like_option(t: Seq<char>) -> bool {
    t.len() > 1 && t[0] == '-'
}

/// Whether `t` begins with `p`.
pub open spec fn has_prefix(t: Seq<char>, p: Seq<char>) -> bool {
    t.len() >= p.len() && t.take(p.len() as int) == p
}

/// The words after the subcommand, from position `i` on: `args` are the arguments
/// taken so far and `raw` tells whether `--` has been passed, after which every
/// word is an argument.
pub open spec fn parse_command(
    toks: Seq<Seq<char>>,
    i: nat,
    kind: CommandKind,
    args: Seq<Seq<char>>,
    raw: bool,
) -> Result<CommandView, CliError>
    decreases toks.len() - i,
{
    if i >= toks.len() {
        if args.len() < arity(kind) {
            Err(CliError::MissingArgument)
        } else {
            Ok(command_of(kind, args))
        }
    } else {
        let t = toks[i as int];
        if !raw && t == "--"@ {
            parse_command(toks, i + 1, kind, args, true)
        } else if !raw && (t == "-h"@ || t == "--help"@) {
            Err(CliError::HelpRequested)
        } else if !raw && looks_like_option(t) {
            Err(CliError::UnknownArgument)
        } else if args.len() < arity(kind) {
            parse_command(toks, i + 1, kind, args.push(t), raw)
        } else {
            Err(CliError::UnexpectedArgument)
        }
    }
}

/// The words before the subcommand, from position `i` on, with the data directory
/// found so far.
pub open spec fn parse_options(toks: Seq<Seq<char>>, i: nat, dir: Option<Seq<char>>) -> Result<
    CliView,
    CliError,
>
    decreases toks.len() - i,
{
    if i >= toks.len() {
        Err(CliError::MissingSubcommand)
    } else {
        let t = toks[i as int];
        if t == "-h"@ || t == "--help"@ {
            Err(CliError::HelpRequested)
        } else if t == "-V"@ || t == "--version"@ {
            Err(CliError::VersionRequested)
        } else if t == "-d"@ || t == "--data-dir"@ {
            if i + 1 < toks.len() && !looks_like_option(toks[i + 1int]) {
                if dir is Some {
                    Err(CliError::RepeatedArgument)
                } else {
                    parse_options(toks, i + 2, Some(toks[i + 1int]))
                }
            } else {
                Err(CliError::MissingValue)
            }
        } else if has_prefix(t, "--data-dir="@) || has_prefix(t, "-d"@) {
            if dir is Some {
                Err(CliError::RepeatedArgument)
            } else {
                let v = if has_prefix(t, "--data-dir="@) {
                    t.skip("--data-dir="@.len() as int)
                } else if t.len() > 2 && t[2] == '=' {
                    t.skip(3)
                } else {
                    t.skip(2)
                };
                parse_options(toks, i + 1, Some(v))
            }
        } else if looks_like_option(t) {
            Err(CliError::UnknownArgument)
        } else if t == "help"@ {
            Err(CliError::HelpRequested)
        } else {
            match command_kind(t) {
                None => Err(CliError::UnknownSubcommand),
                Some(kind) => match parse_command(toks, i + 1, kind, Seq::empty(), false) {
                    Ok(c) => Ok(CliView { data_dir: dir, command: c }),
                    Err(e) => Err(e),
                },
            }
        }
    }
}

/// The meaning of the words that follow the program name.
pub open spec fn parse_words(toks: Seq<Seq<char>>) -> Result<CliView, CliError> {
    if toks.len() == 0 {
        Err(CliError::HelpRequested)
    } else {
        parse_options(toks, 0, None)
    }
}

/// The words of a command line after the program name, as character sequences.
pub open spec fn words_of(args: Seq<&str>) -> Seq<Seq<char>> {
    if args.len() == 0 {
        Seq::empty()
    } else {
        args.drop_first().map_values(|a: &str| a@)
    }
}

/// Where the data lives: the directory given on the command line if there is one;
/// otherwise, in a release build, the operating system's data directory for the
/// program when it has one; otherwise the current directory.
pub fn choose_data_dir(
    data_dir_option: Option<String>,
    is_release: bool,
    project_data_dir: Option<String>,
) -> (dir: String)
    ensures
        dir@ == match data_dir_option {
            Some(d) => d@,
            None => if is_release && project_data_dir is Some {
                project_data_dir->0@
            } else {
                "."@
            },
        },
{
    if let Some(dir) = data_dir_option {
        return dir;
    }
    if is_release {
        if let Some(dir) = project_data_dir {
            return dir;
        }
    }
    ".".to_owned()
}

/// The subcommand that a word names.
fn word_kind(t: &str) -> (k: Option<CommandKind>)
    ensures
        k == command_kind(t@),
{
    if str_eq(t, "add") {
        Some(CommandKind::Add)
    } else if str_eq(t, "finish") {
        Some(CommandKind::Finish)
    } else if str_eq(t, "edit") {
        Some(CommandKind::Edit)
    } else if str_eq(t, "clean") {
        Some(CommandKind::Clean)
    } else if str_eq(t, "list") {
        Some(CommandKind::List)
    } else if str_eq(t, "tui") {
        Some(CommandKind::Tui)
    } else {
        None
    }
}

/// Whether a word stands for an option.
fn is_option_word(t: &str) -> (b: bool)
    ensures
        b == looks_like_option(t@),
{
    t.unicode_len() > 1 && t.get_char(0) == '-'
}

/// Parse the words after a subcommand, which stands at position `start - 1` of `args`.
fn parse_command_words(args: &Vec<&str>, start: usize, kind: CommandKind) -> (r: Result<
    Commands,
    CliError,
>)
    requires
        1 <= start <= args.len(),
    ensures
        match r {
            Ok(c) => parse_command(words_of(args@), (start - 1) as nat, kind, Seq::empty(), false)
                == Ok::<CommandView, CliError>(c.view()),
            Err(e) => parse_command(words_of(args@), (start - 1) as nat, kind, Seq::empty(), false)
                == Err::<CommandView, CliError>(e),
        },
{
    let ghost toks = words_of(args@);
    let ghost goal = parse_command(toks, (start - 1) as nat, kind, Seq::empty(), false);
    let mut words: Vec<&str> = Vec::new();
    let mut raw = false;
    let mut i = start;
    let need: usize = match kind {
        CommandKind::Add | CommandKind::Finish => 1,
        CommandKind::Edit => 2,
        _ => 0,
    };
    assert(words@.map_values(|a: &str| a@) =~= Seq::<Seq<char>>::empty());
    while i < args.len()
        invariant
            1 <= start <= i <= args.len(),
            toks == words_of(args@),
            toks.len() == args.len() - 1,
            forall|j: int| 0 <= j < toks.len() ==> #[trigger] toks[j] == args@[j + 1]@,
            need == arity(kind),
            goal == parse_command(toks, (start - 1) as nat, kind, Seq::empty(), false),
            words.len() <= need,
            goal == parse_command(toks, (i - 1) as nat, kind, words@.map_values(|a: &str| a@), raw),
        decreases args.len() - i,
    {
        let t = args[i];
        assert(toks[i - 1] == t@);
        if !raw && str_eq(t, "--") {
            raw = true;
        } else if !raw && (str_eq(t, "-h") || str_eq(t, "--help")) {
            return Err(CliError::HelpRequested);
        } else if !raw && is_option_word(t) {
            return Err(CliError::UnknownArgument);
        } else if words.len() < need {
            let ghost before = words@;
            words.push(t);
            assert(words@.map_values(|a: &str| a@) =~= before.map_values(|a: &str| a@).push(t@));
        } else {
            return Err(CliError::UnexpectedArgument);
        }
        i = i + 1;
    }
    if words.len() < need {
        return Err(CliError::MissingArgument);
    }
    let c = match kind {
        CommandKind::Add => Commands::Add { content: words[0].to_owned() },
        CommandKind::Finish => Commands::Finish { content: words[0].to_owned() },
        CommandKind::Edit => Commands::Edit {
            find: words[0].to_owned(),
            replace: words[1].to_owned(),
        },
        CommandKind::Clean => Commands::Clean,
        CommandKind::List => Commands::List,
        CommandKind::Tui => Commands::Tui,
    };
    assert(c.view() == command_of(kind, words@.map_values(|a: &str| a@)));
    Ok(c)
}

impl Cli {
    /// Parse a command line; its first word is the program name.
    ///
    /// Before the subcommand may stand `-h`/`--help`, `-V`/`--version`, and the data
    /// directory as `-d DIR`, `--data-dir DIR`, `-dDIR`, `-d=DIR` or
    /// `--data-dir=DIR`, at most once. Then one of `add CONTENT`, `finish CONTENT`,
    /// `edit FIND REPLACE`, `clean`, `list`, `tui` (or `help`). After the
    /// subcommand, `-h`/`--help` asks for help, other words that start with `-`
    /// (but `-` alone) are refused, and after `--` every word is an argument.
    pub fn try_parse_from(args: Vec<&str>) -> (r: Result<Cli, CliError>)
        ensures
            match r {
                Ok(cli) => parse_words(words_of(args@)) == Ok::<CliView, CliError>(cli.view()),
                Err(e) => parse_words(words_of(args@)) == Err::<CliView, CliError>(e),
            },
    {
        let ghost toks = words_of(args@);
        let n = args.len();
        if n <= 1 {
            return Err(CliError::HelpRequested);
        }
        let ghost goal = parse_words(toks);
        let mut dir: Option<String> = None;
        let mut i: usize = 1;
        assert(toks.len() == n - 1);
        assert(forall|j: int| 0 <= j < toks.len() ==> #[trigger] toks[j] == args@[j + 1]@);
        loop
            invariant
                1 <= i <= n + 1,
                n == args.len(),
                toks == words_of(args@),
                toks.len() == n - 1,
                n > 1,
                goal == parse_words(words_of(args@)),
                forall|j: int| 0 <= j < toks.len() ==> #[trigger] toks[j] == args@[j + 1]@,
                goal == parse_options(toks, (i - 1) as nat, match dir {
                    Some(d) => Some(d@),
                    None => None,
                }),
            decreases n + 1 - i,
        {
            if i >= n {
                return Err(CliError::MissingSubcommand);
            }
            let t = args[i];
            assert(toks[i - 1] == t@);
            if str_eq(t, "-h") || str_eq(t, "--help") {
                return Err(CliError::HelpRequested);
            } else if str_eq(t, "-V") || str_eq(t, "--version") {
                return Err(CliError::VersionRequested);
            } else if str_eq(t, "-d") || str_eq(t, "--data-dir") {
                if i + 1 < n && !is_option_word(args[i + 1]) {
                    assert(toks[i as int] == args@[i + 1]@);
                    if dir.is_some() {
                        return Err(CliError::RepeatedArgument);
                    }
                    dir = Some(args[i + 1].to_owned());
                    i = i + 2;
                } else {
                    return Err(CliError::MissingValue);
                }
            } else if starts_with(t, "--data-dir=") || starts_with(t, "-d") {
                if dir.is_some() {
                    return Err(CliError::RepeatedArgument);
                }
                let len = t.unicode_len();
                proof {
                    reveal_strlit("-d");
                    reveal_strlit("--data-dir=");
                }
                let v: &str = if starts_with(t, "--data-dir=") {
                    t.substring_char("--data-dir=".unicode_len(), len)
                } else if len > 2 && t.get_char(2) == '=' {
                    t.substring_char(3, len)
                } else {
                    t.substring_char(2, len)
                };
                proof {
                    if has_prefix(t@, "--data-dir="@) {
                        assert(v@ =~= t@.skip("--data-dir="@.len() as int));
                    } else {
                        reveal_strlit("-d");
                        if len > 2 && t@[2] == '=' {
                            assert(v@ =~= t@.skip(3));
                        } else {
                            assert(v@ =~= t@.skip(2));
                        }
                    }
                }
                dir = Some(v.to_owned());
                i = i + 1;
            } else if is_option_word(t) {
                return Err(CliError::UnknownArgument);
            } else if str_eq(t, "help") {
                return Err(CliError::HelpRequested);
            } else {
                match word_kind(t) {
                    None => {
                        return Err(CliError::UnknownSubcommand);
                    },
                    Some(kind) => {
                        let command = match parse_command_words(&args, i + 1, kind) {
                            Ok(c) => c,
                            Err(e) => {
                                return Err(e);
                            },
                        };
                        return Ok(Cli { data_dir: dir, command });
                    },
                }
            }
        }
    }
}

/// A word that does not start with `-` and is not `help` is read as a subcommand name.
proof fn lemma_subcommand_word(toks: Seq<Seq<char>>, i: nat, dir: Option<Seq<char>>)
    requires
        i < toks.len(),
        toks[i as int].len() > 0,
        toks[i as int][0] != '-',
        toks[i as int] != "help"@,
    ensures
        parse_options(toks, i, dir) == match command_kind(toks[i as int]) {
            None => Err(CliError::UnknownSubcommand),
            Some(kind) => match parse_command(toks, i + 1, kind, Seq::empty(), false) {
                Ok(c) => Ok(CliView { data_dir: dir, command: c }),
                Err(e) => Err(e),
            },
        },
{
    let t = toks[i as int];
    reveal_strlit("-h");
    reveal_strlit("--help");
    reveal_strlit("-V");
    reveal_strlit("--version");
    reveal_strlit("-d");
    reveal_strlit("--data-dir");
    reveal_strlit("--data-dir=");
    assert(t != "-h"@ && t != "--help"@ && t != "-V"@ && t != "--version"@);
    assert(t != "-d"@ && t != "--data-dir"@);
    assert(!has_prefix(t, "--data-dir="@)) by {
        if has_prefix(t, "--data-dir="@) {
            assert(t.take(11)[0] == t[0]);
        }
    }
    assert(!has_prefix(t, "-d"@)) by {
        if has_prefix(t, "-d"@) {
            assert(t.take(2)[0] == t[0]);
        }
    }
}

/// An argument word that is not an option is taken as the next argument.
proof fn lemma_argument_word(
    toks: Seq<Seq<char>>,
    i: nat,
    kind: CommandKind,
    args: Seq<Seq<char>>,
)
    requires
        i < toks.len(),
        !looks_like_option(toks[i as int]),
        args.len() < arity(kind),
    ensures
        parse_command(toks, i, kind, args, false) == parse_command(toks, i + 1, kind, args.push(toks[i as int]), false),
{
    reveal_strlit("--");
    reveal_strlit("-h");
    reveal_strlit("--help");
}

/// `add CONTENT` adds CONTENT, for every CONTENT that is not an option.
pub proof fn lemma_add_command(content: Seq<char>)
    requires
        !looks_like_option(content),
    ensures
        parse_words(seq!["add"@, content]) == Ok::<CliView, CliError>(
            CliView { data_dir: None, command: CommandView::Add(content) },
        ),
{
    reveal_strlit("add");
    reveal_strlit("help");
    let toks = seq!["add"@, content];
    lemma_subcommand_word(toks, 0, None);
    lemma_argument_word(toks, 1, CommandKind::Add, Seq::empty());
    assert(Seq::<Seq<char>>::empty().push(content) =~= seq![content]);
}

/// `finish CONTENT` finishes CONTENT, for every CONTENT that is not an option.
pub proof fn lemma_finish_command(content: Seq<char>)
    requires
        !looks_like_option(content),
    ensures
        parse_words(seq!["finish"@, content]) == Ok::<CliView, CliError>(
            CliView { data_dir: None, command: CommandView::Finish(content) },
        ),
{
    reveal_strlit("add");
    reveal_strlit("finish");
    reveal_strlit("help");
    let toks = seq!["finish"@, content];
    lemma_subcommand_word(toks, 0, None);
    lemma_argument_word(toks, 1, CommandKind::Finish, Seq::empty());
    assert(Seq::<Seq<char>>::empty().push(content) =~= seq![content]);
}

/// `edit FIND REPLACE` replaces FIND by REPLACE, for all FIND and REPLACE that are not options.
pub proof fn lemma_edit_command(find: Seq<char>, replace: Seq<char>)
    requires
        !looks_like_option(find),
        !looks_like_option(replace),
    ensures
        parse_words(seq!["edit"@, find, replace]) == Ok::<CliView, CliError>(
            CliView { data_dir: None, command: CommandView::Edit(find, replace) },
        ),
{
    reveal_strlit("add");
    reveal_strlit("finish");
    reveal_strlit("edit");
    reveal_strlit("help");
    let toks = seq!["edit"@, find, replace];
    lemma_subcommand_word(toks, 0, None);
    lemma_argument_word(toks, 1, CommandKind::Edit, Seq::empty());
    assert(Seq::<Seq<char>>::empty().push(find) =~= seq![find]);
    lemma_argument_word(toks, 2, CommandKind::Edit, seq![find]);
    assert(seq![find].push(replace) =~= seq![find, replace]);
}

/// A data directory given before the subcommand is kept with it.
pub proof fn lemma_data_dir_option(dir: Seq<char>, content: Seq<char>)
    requires
        !looks_like_option(dir),
        !looks_like_option(content),
    ensures
        parse_words(seq!["--data-dir"@, dir, "add"@, content]) == Ok::<CliView, CliError>(
            CliView { data_dir: Some(dir), command: CommandView::Add(content) },
        ),
{
    reveal_strlit("add");
    reveal_strlit("help");
    reveal_strlit("-h");
    reveal_strlit("--help");
    reveal_strlit("-V");
    reveal_strlit("--version");
    reveal_strlit("--data-dir");
    let toks = seq!["--data-dir"@, dir, "add"@, content];
    assert(toks[0] == "--data-dir"@);
    assert(toks[0] != "-h"@ && toks[0] != "--help"@ && toks[0] != "-V"@ && toks[0] != "--version"@);
    lemma_subcommand_word(toks, 2, Some(dir));
    lemma_argument_word(toks, 3, CommandKind::Add, Seq::empty());
    assert(Seq::<Seq<char>>::empty().push(content) =~= seq![content]);
}

} // verus!
