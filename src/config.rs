//! Command-line configuration.

use vstd::prelude::*;

verus! {

/// What the program needs from its command line: the path of the input file.
pub struct Config {
    pub input_path: String,
}

impl Config {
    /// Reads the input path from `args`, where `args[0]` is the program name.
    /// Fails when no path was passed.
    pub fn new(args: &[String]) -> (r: Result<Config, &'static str>)
        ensures
            args@.len() < 2 <==> r is Err,
            r matches Ok(c) ==> c.input_path@ == args@[1]@,
            r matches Err(m) ==> m@
                == "Required arguments not passed. You must pass the input path as an argument"@,
    {
        if args.len() < 2 {
            return Err(
                "Required arguments not passed. You must pass the input path as an argument",
            );
        }
        let input_path = args[1].clone();
        Ok(Config { input_path })
    }
}

} // verus!
