//! The two outside programs that do the work: the archiver, which extracts
//! plugins, and the command runner, which runs their install scripts. This
//! module checks that the programs are there and builds their command lines;
//! starting them is left to the caller.

use vstd::prelude::*;
use vstd::string::*;
use crate::metadata::string_views;

verus! {

/// Why a program cannot be used.
#[derive(Debug, Clone, Copy, PartialEq, Eq, Structural)]
pub enum ToolError {
    /// There is no file at the program's path.
    NotFound,
}

/// The archiver.
#[derive(Debug, Clone)]
pub struct SevenZip {
    exe_path: String,
}

/// The command runner.
#[derive(Debug, Clone)]
pub struct Pecmd {
    exepath: String,
}

/// The arguments with which the archiver extracts all of `file` into `out`:
/// `x <file> -y -aos -o"<out>"`. Every prompt is answered with yes, and files
/// that exist already are kept.
pub open spec fn extract_arguments(file: Seq<char>, out: Seq<char>) -> Seq<Seq<char>> {
    seq![
        seq!['x'],
        file,
        seq!['-', 'y'],
        seq!['-', 'a', 'o', 's'],
        seq!['-', 'o', '"'] + out + seq!['"'],
    ]
}

impl SevenZip {
    /// The path of the program.
    pub closed spec fn path(&self) -> Seq<char> {
        self.exe_path@
    }

    /// The archiver at `exe`, given whether a file exists there.
    pub fn new(exe: String, exists: bool) -> (made: Result<SevenZip, ToolError>)
        ensures
            match made {
                Ok(tool) => exists && tool.path() == exe@,
                Err(e) => !exists && e == ToolError::NotFound,
            },
    {
        if !exists {
            return Err(ToolError::NotFound);
        }
        Ok(SevenZip { exe_path: exe })
    }

    /// The path of the program.
    pub fn exe_path(&self) -> (path: &str)
        ensures
            path@ == self.path(),
    {
        self.exe_path.as_str()
    }

    /// The arguments to start the archiver with, to extract all of `file`
    /// into `out`.
    pub fn extract_all_files(&self, file: &str, out: &str) -> (args: Vec<String>)
        ensures
            string_views(args@) == extract_arguments(file@, out@),
    {
        let mut target = "-o\"".to_owned();
        target.append(out);
        target.append("\"");
        let mut args: Vec<String> = Vec::new();
        args.push("x".to_owned());
        args.push(file.to_owned());
        args.push("-y".to_owned());
        args.push("-aos".to_owned());
        args.push(target);
        proof {
            reveal_strlit("x");
            reveal_strlit("-y");
            reveal_strlit("-aos");
            reveal_strlit("-o\"");
            reveal_strlit("\"");
            assert("x"@ =~= seq!['x']);
            assert("-y"@ =~= seq!['-', 'y']);
            assert("-aos"@ =~= seq!['-', 'a', 'o', 's']);
            assert("-o\""@ =~= seq!['-', 'o', '"']);
            assert("\""@ =~= seq!['"']);
            assert(string_views(args@) =~= extract_arguments(file@, out@));
        }
        args
    }
}

impl Pecmd {
    /// The path of the program.
    pub closed spec fn path(&self) -> Seq<char> {
        self.exepath@
    }

    /// The command runner at `p`, given whether a file exists there.
    pub fn new(p: String, exists: bool) -> (made: Result<Pecmd, ToolError>)
        ensures
            match made {
                Ok(tool) => exists && tool.path() == p@,
                Err(e) => !exists && e == ToolError::NotFound,
            },
    {
        if !exists {
            return Err(ToolError::NotFound);
        }
        Ok(Pecmd { exepath: p })
    }

    /// The path of the program.
    pub fn exe_path(&self) -> (path: &str)
        ensures
            path@ == self.path(),
    {
        self.exepath.as_str()
    }
}

} // verus!
