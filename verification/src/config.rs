//! The server's configuration, read from its command-line arguments.

use vstd::prelude::*;
use vstd::string::StringExecFns;
use crate::scan::{chars_of, same_text};

verus! {

pub const DIRECTORY_FLAG: &'static str = "--directory";

pub const MISSING_VALUE: &'static str = "No value specified for parameter --directory";

pub const MISSING_DIRECTORY: &'static str = "No file directory specified";

pub const UNKNOWN_ARGUMENT: &'static str = "Unkown argument ";

pub const UNKNOWN_POSITIONAL_ARGUMENT: &'static str = "Unkown positional argument ";

/// Where the files that the server hands out are kept.
pub struct Config {
    pub file_directory: String,
}

/// What scanning `args` from left to right finds, `found` being the
/// directory seen so far: every `--directory` takes the argument after it
/// as its value, the last one winning; other arguments are passed over.
/// `Err` says that a `--directory` stands last, without a value.
pub open spec fn scan_args(args: Seq<Seq<char>>, found: Option<Seq<char>>) -> Result<
    Option<Seq<char>>,
    (),
>
    decreases args.len(),
{
    if args.len() == 0 {
        Ok(found)
    } else if args[0] == DIRECTORY_FLAG@ {
        if args.len() == 1 {
            Err(())
        } else {
            scan_args(args.skip(2), Some(args[1]))
        }
    } else {
        scan_args(args.skip(1), found)
    }
}

/// What is said of an argument that is passed over: one that starts with a
/// dash is taken for a flag, any other for a positional argument.
pub open spec fn notice(arg: Seq<char>) -> Seq<char> {
    if arg.len() > 0 && arg[0] == '-' {
        UNKNOWN_ARGUMENT@ + arg
    } else {
        UNKNOWN_POSITIONAL_ARGUMENT@ + arg
    }
}

/// The notices for the arguments that scanning `args` passes over, in
/// order: every argument that is neither `--directory` nor its value.
pub open spec fn notices_of(args: Seq<Seq<char>>) -> Seq<Seq<char>>
    decreases args.len(),
{
    if args.len() == 0 {
        Seq::empty()
    } else if args[0] == DIRECTORY_FLAG@ {
        if args.len() == 1 {
            Seq::empty()
        } else {
            notices_of(args.skip(2))
        }
    } else {
        seq![notice(args[0])] + notices_of(args.skip(1))
    }
}

/// The texts of a list of arguments.
pub open spec fn arg_texts(args: Seq<String>) -> Seq<Seq<char>> {
    args.map_values(|arg: String| arg@)
}

impl Config {
    /// Reads the configuration from the arguments that follow the program's
    /// name.
    pub fn from_args(args: &Vec<String>) -> (result: Result<Config, &'static str>)
        ensures
            match scan_args(arg_texts(args@), None) {
                Err(_) => result matches Err(message) && message@ == MISSING_VALUE@,
                Ok(None) => result matches Err(message) && message@ == MISSING_DIRECTORY@,
                Ok(Some(directory)) => result matches Ok(config) && config.file_directory@
                    == directory,
            },
    {
        let ghost all = arg_texts(args@);
        let mut file_directory: Option<String> = None;
        let mut i: usize = 0;
        assert(all.skip(0) =~= all);
        while i < args.len()
            invariant
                i <= args.len(),
                all == arg_texts(args@),
                scan_args(all, None) == scan_args(
                    all.skip(i as int),
                    match file_directory {
                        Some(directory) => Some(directory@),
                        None => None,
                    },
                ),
            decreases args.len() - i,
        {
            let ghost rest = all.skip(i as int);
            assert(rest[0] == args@[i as int]@);
            if same_text(args[i].as_str(), DIRECTORY_FLAG) {
                if i + 1 < args.len() {
                    assert(rest[1] == args@[i + 1]@);
                    assert(rest.skip(2) =~= all.skip(i + 2));
                    file_directory = Some(args[i + 1].clone());
                    i += 2;
                } else {
                    return Err(MISSING_VALUE);
                }
            } else {
                assert(rest.skip(1) =~= all.skip(i + 1));
                i += 1;
            }
        }
        match file_directory {
            Some(file_directory) => Ok(Config { file_directory }),
            None => Err(MISSING_DIRECTORY),
        }
    }

    /// What there is to say of the arguments that `from_args` passes over,
    /// one line for each.
    pub fn notices(args: &Vec<String>) -> (found: Vec<String>)
        ensures
            arg_texts(found@) == notices_of(arg_texts(args@)),
    {
        let ghost all = arg_texts(args@);
        let mut found: Vec<String> = Vec::new();
        let mut i: usize = 0;
        assert(all.skip(0) =~= all);
        assert(arg_texts(found@) =~= Seq::<Seq<char>>::empty());
        while i < args.len()
            invariant
                i <= args.len(),
                all == arg_texts(args@),
                notices_of(all) == arg_texts(found@) + notices_of(all.skip(i as int)),
            decreases args.len() - i,
        {
            let ghost rest = all.skip(i as int);
            assert(rest[0] == args@[i as int]@);
            if same_text(args[i].as_str(), DIRECTORY_FLAG) {
                if i + 1 < args.len() {
                    assert(rest.skip(2) =~= all.skip(i + 2));
                    i += 2;
                } else {
                    assert(arg_texts(found@) + notices_of(rest) =~= arg_texts(found@));
                    return found;
                }
            } else {
                let chars = chars_of(args[i].as_str());
                let mut line = if chars.len() > 0 && chars[0] == '-' {
                    String::from_str(UNKNOWN_ARGUMENT)
                } else {
                    String::from_str(UNKNOWN_POSITIONAL_ARGUMENT)
                };
                line.append(args[i].as_str());
                let ghost before_push = found@;
                found.push(line);
                proof {
                    assert(rest.skip(1) =~= all.skip(i + 1));
                    assert(arg_texts(found@) =~= arg_texts(before_push) + seq![notice(rest[0])]);
                }
                i += 1;
            }
        }
        assert(arg_texts(found@) + notices_of(all.skip(i as int)) =~= arg_texts(found@));
        found
    }

    /// The path of the file named `name`: the name appended to the
    /// directory as it stands, nothing put between them.
    pub fn file_path(&self, name: &str) -> (path: String)
        ensures
            path@ == self.file_directory@ + name@,
    {
        let mut path = self.file_directory.clone();
        path.append(name);
        path
    }
}

} // verus!
