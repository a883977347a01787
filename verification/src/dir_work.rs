//! Which files of the temporary directory belong to this program, and which
//! of them a request to show output means.

use vstd::prelude::*;

use crate::programs::output_base;
use crate::programs::output_path_text;
use crate::programs::ProgramView;
use crate::programs::OUTPUT_PREFIX;
use crate::text::occurs_in;
use crate::text::same_text;
use crate::text::str_contains;
use crate::timestamp::Timestamp;

verus! {

/// Name of the directory, below the system's temporary directory, that holds
/// the output files.
pub const TMP_DIR_NAME: &'static str = "up_tmp";

/// Name of the directory, below the user's configuration directory, that
/// holds the configuration and the log.
pub const CONFIG_DIR_NAME: &'static str = "up";

/// Name of the configuration file.
pub const CONFIG_FILE_NAME: &'static str = "up_config.ron";

/// Name of the log file.
pub const LOG_FILE_NAME: &'static str = "up.log";

/// The word that asks for the output of every program.
pub const ALL_PROGRAMS: &'static str = "all";

/// Whether a file name marks an output file: the prefix of output files
/// occurs in it.
pub open spec fn is_output_name(filename: Seq<char>) -> bool {
    occurs_in(OUTPUT_PREFIX@, filename)
}

/// Whether a request for `arg` covers the file `filename`: `all` covers every
/// file, any other word the files whose name it occurs in.
pub open spec fn is_selected(arg: Seq<char>, filename: Seq<char>) -> bool {
    arg == ALL_PROGRAMS@ || occurs_in(arg, filename)
}

/// Whether the file `filename` is an output file, to be removed when the
/// temporary directory is cleaned.
pub fn is_output_file(filename: &str) -> (r: bool)
    ensures
        r == is_output_name(filename@),
{
    str_contains(filename, OUTPUT_PREFIX)
}

/// Whether the output file `filename` is to be shown on a request for `arg`.
pub fn selects_output(arg: &str, filename: &str) -> (r: bool)
    ensures
        r == is_selected(arg@, filename@),
{
    same_text(arg, ALL_PROGRAMS) || str_contains(filename, arg)
}

/// Every path that is allocated for the output of a program is known as an
/// output file, whatever the directory, the program and the instant.
pub proof fn lemma_allocated_paths_are_output_files(program: ProgramView, stamp: Timestamp)
    requires
        program.wf(),
    ensures
        is_output_name(output_path_text(program.outputfile, stamp)),
{
    let tmp_dir = choose|tmp_dir: Seq<char>|
        program.outputfile == #[trigger] output_base(tmp_dir, program.name);
    let path = output_path_text(program.outputfile, stamp);
    let at = (tmp_dir + "/"@).len() as int;
    assert(path.subrange(at, at + OUTPUT_PREFIX@.len()) == OUTPUT_PREFIX@);
}

} // verus!
