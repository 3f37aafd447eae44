//! The settings of the offline generator: where the host project lies, and
//! how much the generator says while it works.

use vstd::prelude::*;

verus! {

/// One argument of the command line.
pub enum Arg {
    /// A short flag, such as `-v`.
    Short(char),
    /// A long flag, such as `--verbose`, without its dashes.
    Long(String),
    /// A positional value.
    Value(String),
}

/// The argument is the verbosity flag, short or long.
pub open spec fn is_verbose_flag(arg: Arg) -> bool {
    match arg {
        Arg::Short(c) => c == 'v',
        Arg::Long(name) => name@ == "verbose"@,
        Arg::Value(_) => false,
    }
}

/// What a `Config` holds.
pub struct ConfigSpec {
    pub jiff: Option<Seq<char>>,
    pub verbose: bool,
}

/// The settings after an argument, and whether the argument was taken: the
/// verbosity flag switches verbosity on, the first positional value names
/// the root of the host project, and anything else is left to others.
pub open spec fn configured(before: ConfigSpec, arg: Arg) -> (ConfigSpec, bool) {
    if is_verbose_flag(arg) {
        (ConfigSpec { jiff: before.jiff, verbose: true }, true)
    } else {
        match arg {
            Arg::Value(root) if before.jiff is None => (
                ConfigSpec { jiff: Some(root@), verbose: before.verbose },
                true,
            ),
            _ => (before, false),
        }
    }
}

/// The file of the host project, relative to its root, that holds the
/// generated source.
pub open spec fn target_text() -> Seq<char> {
    "src/fmt/friendly/parser_label.rs"@
}

/// The file of the host project, relative to its root, that holds the
/// generated source.
pub fn target() -> (path: &'static str)
    ensures
        path@ == target_text(),
{
    "src/fmt/friendly/parser_label.rs"
}

/// The help for one flag: how it is written, a summary, and the full text.
pub struct Usage {
    pub format: &'static str,
    pub short: &'static str,
    pub long: &'static str,
}

/// The settings of the generator.
#[derive(Debug)]
pub struct Config {
    jiff: Option<String>,
    verbose: bool,
}

impl View for Config {
    type V = ConfigSpec;

    closed spec fn view(&self) -> ConfigSpec {
        ConfigSpec {
            jiff: match self.jiff {
                Some(path) => Some(path@),
                None => None,
            },
            verbose: self.verbose,
        }
    }
}

impl Default for Config {
    /// No root is named, and verbosity is off.
    fn default() -> (config: Config)
        ensures
            config@ == (ConfigSpec { jiff: None, verbose: false }),
    {
        Config { jiff: None, verbose: false }
    }
}

impl Config {
    /// The root of the host project: the one that was named, or else the
    /// current directory.
    pub fn jiff(&self) -> (root: &str)
        ensures
            root@ == match self@.jiff {
                Some(path) => path,
                None => "./"@,
            },
    {
        match &self.jiff {
            Some(path) => path.as_str(),
            None => "./",
        }
    }

    /// Whether the generator was asked to say more.
    pub fn verbose(&self) -> (verbose: bool)
        ensures
            verbose == self@.verbose,
    {
        self.verbose
    }

    /// Takes one argument of the command line, or leaves it: the result
    /// says which.
    pub fn configure(&mut self, arg: Arg) -> (taken: bool)
        ensures
            (final(self)@, taken) == configured(old(self)@, arg),
    {
        match arg {
            Arg::Short(c) => {
                if c == 'v' {
                    self.verbose = true;
                    true
                } else {
                    false
                }
            },
            Arg::Long(name) => {
                if name == String::from_str("verbose") {
                    self.verbose = true;
                    true
                } else {
                    false
                }
            },
            Arg::Value(path) => {
                if self.jiff.is_none() {
                    self.jiff = Some(path);
                    true
                } else {
                    false
                }
            },
        }
    }

    /// The help for the flags that `configure` takes.
    pub fn usage(&self) -> (usages: Vec<Usage>)
        ensures
            usages@.len() == 1,
            usages@[0].format@ == "-v, --verbose"@,
            usages@[0].short@ == "Add more output."@,
            usages@[0].long@
                == "\nThis is a generic flag that expands output beyond the \"normal\" amount. Which\noutput is added depends on the command.\n"@,
    {
        let mut usages: Vec<Usage> = Vec::new();
        usages.push(
            Usage {
                format: "-v, --verbose",
                short: "Add more output.",
                long: "\nThis is a generic flag that expands output beyond the \"normal\" amount. Which\noutput is added depends on the command.\n",
            },
        );
        usages
    }
}

} // verus!
