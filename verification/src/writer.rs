//! Where the downloader's output for a feed is kept.

use vstd::prelude::*;
use vstd::string::*;

use crate::update::LogWrite;

verus! {

/// Directory of the per-feed output logs.
pub const OUTPUT_DIR: &'static str = "config/bilili";

/// The append that keeps `output` of feed `source`: the file
/// `config/bilili/<source>.log`, and the output followed by a line break.
pub fn output_log(source: &str, output: &str) -> (w: LogWrite)
    ensures
        w.path@ == "config/bilili/"@ + source@ + ".log"@,
        w.text@ == output@ + "\n"@,
{
    LogWrite {
        path: String::from_str("config/bilili/").concat(source).concat(".log"),
        text: String::from_str(output).concat("\n"),
    }
}

} // verus!
