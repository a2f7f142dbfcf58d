//! The command line options that configure the engine.
use vstd::prelude::*;

verus! {

/// How many canonical blocks may be in memory before they are persisted.
pub const DEFAULT_PERSISTENCE_THRESHOLD: u64 = 2;

/// How many blocks are kept in memory.
pub const DEFAULT_MEMORY_BLOCK_BUFFER_TARGET: u64 = 2;

/// Parameters for configuring the engine
#[derive(Debug, PartialEq, Eq, Structural)]
pub struct EngineArgs {
    /// Enable the experimental engine features (`--engine.experimental`)
    ///
    /// DEPRECATED: experimental engine is default now, use --engine.legacy to enable the legacy
    /// functionality
    pub experimental: bool,
    /// Enable the legacy engine (`--engine.legacy`)
    pub legacy: bool,
    /// Configure persistence threshold for engine experimental
    /// (`--engine.persistence-threshold`)
    pub persistence_threshold: u64,
    /// Configure the target number of blocks to keep in memory
    /// (`--engine.memory-block-buffer-target`)
    pub memory_block_buffer_target: u64,
}

/// The values that hold where an option is not given.
pub open spec fn default_args() -> EngineArgs {
    EngineArgs {
        experimental: false,
        legacy: false,
        persistence_threshold: DEFAULT_PERSISTENCE_THRESHOLD,
        memory_block_buffer_target: DEFAULT_MEMORY_BLOCK_BUFFER_TARGET,
    }
}

impl Default for EngineArgs {
    fn default() -> (args: Self)
        ensures
            args == default_args(),
    {
        EngineArgs {
            experimental: false,
            legacy: false,
            persistence_threshold: DEFAULT_PERSISTENCE_THRESHOLD,
            memory_block_buffer_target: DEFAULT_MEMORY_BLOCK_BUFFER_TARGET,
        }
    }
}

impl Clone for EngineArgs {
    fn clone(&self) -> (copy: Self)
        ensures
            copy == *self,
    {
        EngineArgs {
            experimental: self.experimental,
            legacy: self.legacy,
            persistence_threshold: self.persistence_threshold,
            memory_block_buffer_target: self.memory_block_buffer_target,
        }
    }
}

/// Why a command line does not configure the engine.
#[derive(Debug, PartialEq, Eq)]
pub enum ArgsError {
    /// The command line does not follow the options' syntax, or asks for
    /// help. Holds what there is to tell the user.
    CommandLine(String),
    /// An option that needs `--engine.experimental` was given without it.
    RequiresExperimental,
}

/// The options found on a command line: the two flags, and the two values
/// where they were given.
#[derive(Debug, Clone, Copy, PartialEq, Eq)]
pub struct Options {
    pub experimental: bool,
    pub legacy: bool,
    pub persistence_threshold: Option<u64>,
    pub memory_block_buffer_target: Option<u64>,
}

/// The strings' characters, in order.
pub open spec fn string_views(strings: Seq<String>) -> Seq<Seq<char>> {
    Seq::new(strings.len(), |i: int| strings[i]@)
}

/// A name that an option can have: it is not empty, does not begin with the
/// hyphens that introduce it, and is not that of a built-in option.
pub open spec fn is_option_name(name: Seq<char>) -> bool {
    &&& name.len() > 0
    &&& name[0] != '-'
    &&& name != "help"@
    &&& name != "version"@
}

/// What the command line `args` sets of two flags and two options with an
/// unsigned 64-bit value, each with the long name given and the options not
/// required. `None` where the command line has another argument, a value that
/// is no such number, an option twice, or asks for help.
pub uninterp spec fn command_line(
    flag: Seq<char>,
    other_flag: Seq<char>,
    option: Seq<char>,
    other_option: Seq<char>,
    args: Seq<Seq<char>>,
) -> Option<(bool, bool, Option<u64>, Option<u64>)>;

/// What matched, if anything did.
pub open spec fn matched(
    found: Result<(bool, bool, Option<u64>, Option<u64>), String>,
) -> Option<(bool, bool, Option<u64>, Option<u64>)> {
    match found {
        Ok(options) => Some(options),
        Err(_) => None,
    }
}

/// Calls `clap::Command::try_get_matches_from` on a command with two flags
/// and two options, and reads what it matched. The contract claims that what
/// matches, and whether it does, is settled by the names and by the command
/// line, and that a command line with nothing after the program's name
/// matches and sets nothing. It does not say what the error tells the user:
/// the text names the program, which clap cuts out of the first argument by
/// the platform's rules for paths. The names that clap's own checks panic on
/// are left out.
#[verifier::external_body]
fn match_command_line(
    flag: &'static str,
    other_flag: &'static str,
    option: &'static str,
    other_option: &'static str,
    args: Vec<String>,
) -> (found: Result<(bool, bool, Option<u64>, Option<u64>), String>)
    requires
        is_option_name(flag@),
        is_option_name(other_flag@),
        is_option_name(option@),
        is_option_name(other_option@),
        flag@ != other_flag@,
        flag@ != option@,
        flag@ != other_option@,
        other_flag@ != option@,
        other_flag@ != other_option@,
        option@ != other_option@,
    ensures
        matched(found) == command_line(
            flag@,
            other_flag@,
            option@,
            other_option@,
            string_views(args@),
        ),
        args@.len() <= 1 ==> matched(found) == Some((false, false, None::<u64>, None::<u64>)),
{
    let number = clap::builder::RangedU64ValueParser::<u64>::new();
    let found = clap::Command::new("reth")
        .arg(clap::Arg::new(flag).long(flag).action(clap::ArgAction::SetTrue))
        .arg(clap::Arg::new(other_flag).long(other_flag).action(clap::ArgAction::SetTrue))
        .arg(clap::Arg::new(option).long(option).value_parser(number))
        .arg(clap::Arg::new(other_option).long(other_option).value_parser(number))
        .try_get_matches_from(args)
        .map_err(|error| error.to_string())?;
    Ok((
        found.get_flag(flag), found.get_flag(other_flag),
        found.get_one(option).copied(), found.get_one(other_option).copied(),
    ))
}

/// What the engine's command line sets. `None` where it does not match.
pub open spec fn engine_options(args: Seq<Seq<char>>) -> Option<Options> {
    match command_line(
        "engine.experimental"@,
        "engine.legacy"@,
        "engine.persistence-threshold"@,
        "engine.memory-block-buffer-target"@,
        args,
    ) {
        Some(matched) => Some(
            Options {
                experimental: matched.0,
                legacy: matched.1,
                persistence_threshold: matched.2,
                memory_block_buffer_target: matched.3,
            },
        ),
        None => None,
    }
}

/// The parameters that the options set: a value that was not given is its
/// default, and a value that was given requires the experimental flag.
pub open spec fn configured(options: Options) -> Result<EngineArgs, ArgsError> {
    if !options.experimental && (options.persistence_threshold is Some
        || options.memory_block_buffer_target is Some) {
        Err(ArgsError::RequiresExperimental)
    } else {
        Ok(
            EngineArgs {
                experimental: options.experimental,
                legacy: options.legacy,
                persistence_threshold: match options.persistence_threshold {
                    Some(value) => value,
                    None => DEFAULT_PERSISTENCE_THRESHOLD,
                },
                memory_block_buffer_target: match options.memory_block_buffer_target {
                    Some(value) => value,
                    None => DEFAULT_MEMORY_BLOCK_BUFFER_TARGET,
                },
            },
        )
    }
}

/// Options are refused exactly where a value is given without the experimental
/// flag. Otherwise each parameter is what was given for it, or its default.
pub proof fn law_each_parameter_is_given_or_default(options: Options)
    ensures
        configured(options) is Err <==> (!options.experimental && (
        options.persistence_threshold is Some || options.memory_block_buffer_target is Some)),
        configured(options) matches Err(error) ==> error is RequiresExperimental,
        configured(options) matches Ok(set) ==> set.experimental == options.experimental,
        configured(options) matches Ok(set) ==> set.legacy == options.legacy,
        configured(options) matches Ok(set) ==> (options.persistence_threshold matches Some(value)
            ==> set.persistence_threshold == value),
        configured(options) matches Ok(set) ==> (options.persistence_threshold is None
            ==> set.persistence_threshold == 2),
        configured(options) matches Ok(set) ==> (options.memory_block_buffer_target matches Some(
            value,
        ) ==> set.memory_block_buffer_target == value),
        configured(options) matches Ok(set) ==> (options.memory_block_buffer_target is None
            ==> set.memory_block_buffer_target == 2),
{
}

/// The options of a command line are what its flags and values say, each under
/// its own name, and a command line that does not match sets nothing.
pub proof fn law_options_are_read_by_name(args: Seq<Seq<char>>)
    ensures
        engine_options(args) is None <==> command_line(
            "engine.experimental"@,
            "engine.legacy"@,
            "engine.persistence-threshold"@,
            "engine.memory-block-buffer-target"@,
            args,
        ) is None,
        engine_options(args) matches Some(options) ==> command_line(
            "engine.experimental"@,
            "engine.legacy"@,
            "engine.persistence-threshold"@,
            "engine.memory-block-buffer-target"@,
            args,
        ) == Some(
            (
                options.experimental,
                options.legacy,
                options.persistence_threshold,
                options.memory_block_buffer_target,
            ),
        ),
{
}

/// The model of a command line holds every argument, character by character.
pub proof fn law_string_views_hold_every_argument(args: Seq<String>)
    ensures
        string_views(args).len() == args.len(),
        forall|i: int| 0 <= i < args.len() ==> #[trigger] string_views(args)[i] == args[i]@,
{
}

/// A match is what was found, whatever was found; an error is no match.
pub proof fn law_match_is_what_was_found(
    found: Result<(bool, bool, Option<u64>, Option<u64>), String>,
)
    ensures
        found matches Ok(options) ==> matched(found) == Some(options),
        found is Err ==> matched(found) is None,
{
}

/// Without any option the engine has its default parameters: neither flag is
/// set.
pub proof fn law_no_option_is_the_default()
    ensures
        configured(
            Options {
                experimental: false,
                legacy: false,
                persistence_threshold: None,
                memory_block_buffer_target: None,
            },
        ) == Ok::<EngineArgs, ArgsError>(default_args()),
        !default_args().experimental,
        !default_args().legacy,
        default_args().persistence_threshold == 2,
        default_args().memory_block_buffer_target == 2,
{
}

impl EngineArgs {
    /// The parameters that the options set.
    pub fn from_options(options: &Options) -> (args: Result<EngineArgs, ArgsError>)
        ensures
            args == configured(*options),
            (args matches Err(ArgsError::RequiresExperimental)) <==> (!options.experimental && (
            options.persistence_threshold is Some || options.memory_block_buffer_target is Some)),
            !(args matches Err(ArgsError::CommandLine(_))),
            args matches Ok(set) ==> set.experimental == options.experimental,
            args matches Ok(set) ==> set.legacy == options.legacy,
            args matches Ok(set) ==> (options.persistence_threshold matches Some(value)
                ==> set.persistence_threshold == value),
            args matches Ok(set) ==> (options.persistence_threshold is None
                ==> set.persistence_threshold == DEFAULT_PERSISTENCE_THRESHOLD),
            args matches Ok(set) ==> (options.memory_block_buffer_target matches Some(value)
                ==> set.memory_block_buffer_target == value),
            args matches Ok(set) ==> (options.memory_block_buffer_target is None
                ==> set.memory_block_buffer_target == DEFAULT_MEMORY_BLOCK_BUFFER_TARGET),
    {
        if !options.experimental && (options.persistence_threshold.is_some()
            || options.memory_block_buffer_target.is_some()) {
            return Err(ArgsError::RequiresExperimental);
        }
        Ok(
            EngineArgs {
                experimental: options.experimental,
                legacy: options.legacy,
                persistence_threshold: match options.persistence_threshold {
                    Some(value) => value,
                    None => DEFAULT_PERSISTENCE_THRESHOLD,
                },
                memory_block_buffer_target: match options.memory_block_buffer_target {
                    Some(value) => value,
                    None => DEFAULT_MEMORY_BLOCK_BUFFER_TARGET,
                },
            },
        )
    }

    /// Reads the parameters from a command line, whose first item is the
    /// program's name.
    pub fn parse_from(args: Vec<String>) -> (parsed: Result<EngineArgs, ArgsError>)
        ensures
            match engine_options(string_views(args@)) {
                Some(options) => parsed == configured(options),
                None => parsed matches Err(ArgsError::CommandLine(_)),
            },
            args@.len() <= 1 ==> (parsed matches Ok(parsed) && parsed == default_args()),
    {
        proof {
            reveal_strlit("engine.experimental");
            reveal_strlit("engine.legacy");
            reveal_strlit("engine.persistence-threshold");
            reveal_strlit("engine.memory-block-buffer-target");
            reveal_strlit("help");
            reveal_strlit("version");
            assert(is_option_name("engine.experimental"@)) by {
                assert("engine.experimental"@[0] == 'e');
            }
            assert(is_option_name("engine.legacy"@)) by {
                assert("engine.legacy"@[0] == 'e');
            }
            assert(is_option_name("engine.persistence-threshold"@)) by {
                assert("engine.persistence-threshold"@[0] == 'e');
            }
            assert(is_option_name("engine.memory-block-buffer-target"@)) by {
                assert("engine.memory-block-buffer-target"@[0] == 'e');
            }
        }
        let found = match_command_line(
            "engine.experimental",
            "engine.legacy",
            "engine.persistence-threshold",
            "engine.memory-block-buffer-target",
            args,
        );
        match found {
            Ok(matched) => EngineArgs::from_options(
                &Options {
                    experimental: matched.0,
                    legacy: matched.1,
                    persistence_threshold: matched.2,
                    memory_block_buffer_target: matched.3,
                },
            ),
            Err(message) => Err(ArgsError::CommandLine(message)),
        }
    }
}

} // verus!
