//! Settings of the program, and the check that a configured program can be run.
use vstd::prelude::*;

verus! {

/// The program's settings.
pub struct ProgrsConfig {
    /// The directory of the combat logs.
    pub watchdir: String,
    /// The directory the videos are saved in.
    pub viddir: String,
    /// How the capture program is run.
    pub recorder: RecorderConfig,
    /// The merge program; an empty string for none.
    pub mkvmerge: String,
}

/// How the capture program is run.
pub struct RecorderConfig {
    /// Full path of the program.
    pub command: String,
    /// Its arguments, in order, without the output file.
    pub args: Vec<String>,
    /// The switch that designates the output file; empty where the output
    /// file is the last argument.
    pub outputswitch: String,
}

/// What the file system says of a path.
#[derive(Clone, Copy, PartialEq, Eq, Debug)]
pub struct FileFacts {
    pub is_file: bool,
    /// The Unix permission bits.
    pub mode: u32,
}

/// Whether a path names a program that can be run, from what the file system
/// says of it (`None` where it could say nothing).
pub fn executable(facts: Option<FileFacts>) -> (r: Result<(), &'static str>)
    ensures
        match facts {
            None => r == Err::<(), &'static str>("Could not determine metadata"),
            Some(f) => if !f.is_file {
                r == Err::<(), &'static str>("not a file")
            } else if f.mode & 0o111 == 0 {
                r == Err::<(), &'static str>("not executable")
            } else {
                r == Ok::<(), &'static str>(())
            },
        },
{
    let f = match facts {
        Some(f) => f,
        None => return Err("Could not determine metadata"),
    };
    if !f.is_file {
        return Err("not a file");
    }
    if f.mode & 0o111 == 0 {
        return Err("not executable");
    }
    Ok(())
}

} // verus!
