//! The command line: where the journal directory comes from.
use vstd::prelude::*;

verus! {

/// Where the journal directory comes from.
pub enum DirChoice {
    /// Given with `--dir`.
    Given(String),
    /// Left to auto-detection.
    Detect,
}

/// The usage line.
pub open spec fn usage() -> Seq<char> {
    "usage: exobio-rat [--dir <journal directory>]"@
}

/// Reads the arguments after the program name: none leaves the directory
/// to auto-detection, `--dir <path>` names it, and anything else is
/// refused with the usage line. Only the first argument is looked at.
pub fn journal_dir_choice(args: &Vec<String>) -> (r: Result<DirChoice, String>)
    ensures
        args@.len() == 0 ==> r matches Ok(DirChoice::Detect),
        args@.len() > 0 && args@[0]@ == "--dir"@ && args@.len() > 1 ==> (r matches Ok(
            DirChoice::Given(d),
        ) && d@ == args@[1]@),
        args@.len() > 0 && args@[0]@ == "--dir"@ && args@.len() == 1 ==> (r matches Err(m) && m@
            == usage()),
        args@.len() > 0 && args@[0]@ != "--dir"@ ==> (r matches Err(m) && m@ == "unknown argument: "@
            + args@[0]@ + " ("@ + usage() + ")"@),
{
    if args.len() == 0 {
        return Ok(DirChoice::Detect);
    }
    let flag = String::from_str("--dir");
    if args[0].eq(&flag) {
        if args.len() > 1 {
            Ok(DirChoice::Given(args[1].clone()))
        } else {
            Err(String::from_str("usage: exobio-rat [--dir <journal directory>]"))
        }
    } else {
        let mut m = String::from_str("unknown argument: ");
        m.append(args[0].as_str());
        m.append(" (");
        m.append("usage: exobio-rat [--dir <journal directory>]");
        m.append(")");
        Err(m)
    }
}

/// The complaint when the journal directory could not be found.
pub fn detect_failed_message() -> (m: String)
    ensures
        m@ == "could not auto-detect the journal directory, pass --dir <path>"@,
{
    String::from_str("could not auto-detect the journal directory, pass --dir <path>")
}

} // verus!
