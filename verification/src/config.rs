//! What one invocation asks for, and how it is read from the arguments.

use vstd::prelude::*;

verus! {

/// The name of the environment variable that switches the comparison: while
/// it is unset, case is ignored; once it is set, to any value, the comparison
/// is exact.
pub const CASE_VARIABLE: &'static str = "CASE_INSENSITIVE";

/// Why no configuration could be made.
#[derive(Debug, Clone, Copy, PartialEq, Eq, Structural)]
pub enum ConfigError {
    /// The arguments hold no query.
    MissingQuery,
    /// The arguments hold a query but no file name.
    MissingFilename,
}

impl ConfigError {
    /// The sentence that reports this error.
    pub fn message(&self) -> (text: &'static str)
        ensures
            *self == ConfigError::MissingQuery ==> text@ == "Did not get a query string."@,
            *self == ConfigError::MissingFilename ==> text@ == "Did not get a filename."@,
    {
        match self {
            ConfigError::MissingQuery => "Did not get a query string.",
            ConfigError::MissingFilename => "Did not get a filename.",
        }
    }
}

/// What one invocation asks for.
#[derive(Debug)]
pub struct Config {
    /// The text to search for.
    pub query: String,
    /// The path of the file to search in.
    pub filename: String,
    /// Whether lines and query are compared without regard to case.
    pub case_insensitive: bool,
}

/// A configuration as the contracts see it.
pub ghost struct ConfigView {
    pub query: Seq<char>,
    pub filename: Seq<char>,
    pub case_insensitive: bool,
}

impl View for Config {
    type V = ConfigView;

    open spec fn view(&self) -> ConfigView {
        ConfigView {
            query: self.query@,
            filename: self.filename@,
            case_insensitive: self.case_insensitive,
        }
    }
}

/// What the arguments of a process ask for, the program's name first: the
/// argument after the name is the query, the next one the file name, and
/// further arguments count for nothing. Case is ignored exactly when the case
/// variable is unset.
pub open spec fn resolved(args: Seq<Seq<char>>, case_variable_unset: bool) -> Result<
    ConfigView,
    ConfigError,
> {
    if args.len() < 2 {
        Err(ConfigError::MissingQuery)
    } else if args.len() < 3 {
        Err(ConfigError::MissingFilename)
    } else {
        Ok(ConfigView { query: args[1], filename: args[2], case_insensitive: case_variable_unset })
    }
}

/// The text of each argument.
pub open spec fn words_of(args: Seq<String>) -> Seq<Seq<char>> {
    Seq::new(args.len(), |i: int| args[i]@)
}

/// An answer of `Config::new` as the contracts see it.
pub open spec fn outcome(made: Result<Config, ConfigError>) -> Result<ConfigView, ConfigError> {
    match made {
        Ok(config) => Ok(config@),
        Err(error) => Err(error),
    }
}

impl Config {
    /// Reads a configuration from the arguments of the process, the program's
    /// name first, and from whether the case variable is unset.
    pub fn new(args: &Vec<String>, case_variable_unset: bool) -> (made: Result<Config, ConfigError>)
        ensures
            outcome(made) == resolved(words_of(args@), case_variable_unset),
            args@.len() <= 1 <==> made == Err::<Config, ConfigError>(ConfigError::MissingQuery),
            args@.len() == 2 <==> made == Err::<Config, ConfigError>(ConfigError::MissingFilename),
            args@.len() >= 3 <==> made is Ok,
            made matches Ok(config) ==> {
                &&& config.query@ == args@[1]@
                &&& config.filename@ == args@[2]@
                &&& config.case_insensitive == case_variable_unset
            },
    {
        if args.len() < 2 {
            return Err(ConfigError::MissingQuery);
        }
        if args.len() < 3 {
            return Err(ConfigError::MissingFilename);
        }
        let query = args[1].clone();
        let filename = args[2].clone();
        Ok(Config { query, filename, case_insensitive: case_variable_unset })
    }
}

/// Arguments after the file name change nothing.
pub proof fn lemma_extras_ignored(
    args: Seq<Seq<char>>,
    extras: Seq<Seq<char>>,
    case_variable_unset: bool,
)
    requires
        args.len() >= 3,
    ensures
        resolved(args + extras, case_variable_unset) == resolved(args, case_variable_unset),
{
}

} // verus!
