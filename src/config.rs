use vstd::prelude::*;

verus! {

/// How the interpreter was asked to run.
pub struct Config {
    pub filename: Option<String>,
    pub interactive: bool,
    pub verbose: bool,
}

impl Config {
    pub fn new(filename: Option<String>, interactive: bool, verbose: bool) -> (r: Config)
        ensures
            r.filename == filename,
            r.interactive == interactive,
            r.verbose == verbose,
    {
        Config { filename, interactive, verbose }
    }

    /// The configuration for the given command-line facts: without a file to
    /// load the session is always interactive.
    pub fn from_flags(filename: Option<String>, interactive_flag: bool, verbose_flag: bool) -> (r: Config)
        ensures
            r.filename == filename,
            r.interactive == (filename is None || interactive_flag),
            r.verbose == verbose_flag,
    {
        let interactive = filename.is_none() || interactive_flag;
        Config::new(filename, interactive, verbose_flag)
    }
}

} // verus!
