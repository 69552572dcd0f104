use vstd::prelude::*;

verus! {

/// The status with which the program stops on a usage or path error.
pub const ERROR_EXIT: i32 = 84;

/// The status with which the program stops after printing its help.
pub const HELP_EXIT: i32 = 0;

/// What the command line asks for.
#[derive(Clone, Copy, Debug, PartialEq, Eq, Structural)]
pub enum ArgsCheck {
    /// Print the help and stop with [`HELP_EXIT`].
    Help,
    /// Print the usage and stop with [`ERROR_EXIT`].
    Usage,
    /// Go on with the source directory and the mount point.
    Proceed,
}

/// What the state of the two directories asks for.
#[derive(Clone, Copy, Debug, PartialEq, Eq, Structural)]
pub enum PathCheck {
    /// The mount point exists but is no directory: stop with [`ERROR_EXIT`].
    MountNotDir,
    /// The mount point cannot be inspected: stop with [`ERROR_EXIT`].
    MountUnreadable,
    /// The source exists but is no directory: stop with [`ERROR_EXIT`].
    SourceNotDir,
    /// The source cannot be inspected: create it, with its parents.
    CreateSource,
    /// Both are directories.
    Ready,
}

/// Decides from the number of command-line words (the program's name
/// included) and whether the first argument is `--help`: exactly three words
/// proceed; two words whose argument is `--help` ask for the help; anything
/// else is a usage error.
pub fn check_arg_count(n_args: usize, first_is_help: bool) -> (r: ArgsCheck)
    ensures
        r == if n_args == 3 {
            ArgsCheck::Proceed
        } else if n_args == 2 && first_is_help {
            ArgsCheck::Help
        } else {
            ArgsCheck::Usage
        },
{
    if n_args != 3 {
        if n_args == 2 && first_is_help {
            return ArgsCheck::Help;
        }
        return ArgsCheck::Usage;
    }
    ArgsCheck::Proceed
}

/// Decides from what inspecting the mount point and the source gave
/// (`None` when the inspection failed, else whether it is a directory): the
/// mount point is checked first and must be a directory; then a source that
/// is no directory is an error, and one that cannot be inspected is to be
/// created.
pub fn check_paths(mount_is_dir: Option<bool>, source_is_dir: Option<bool>) -> (r: PathCheck)
    ensures
        r == match mount_is_dir {
            None => PathCheck::MountUnreadable,
            Some(false) => PathCheck::MountNotDir,
            Some(true) => match source_is_dir {
                None => PathCheck::CreateSource,
                Some(false) => PathCheck::SourceNotDir,
                Some(true) => PathCheck::Ready,
            },
        },
{
    match mount_is_dir {
        Some(t) => {
            if !t {
                return PathCheck::MountNotDir;
            }
        },
        None => {
            return PathCheck::MountUnreadable;
        },
    }
    match source_is_dir {
        Some(t) => {
            if !t {
                return PathCheck::SourceNotDir;
            }
        },
        None => {
            return PathCheck::CreateSource;
        },
    }
    PathCheck::Ready
}

} // verus!
