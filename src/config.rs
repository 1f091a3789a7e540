//! Command-line flags and configuration-file lines.
use vstd::prelude::*;
use vstd::string::*;

verus! {

/// Whether `flag` is one of the command-line arguments.
pub open spec fn has_arg(args: Seq<String>, flag: Seq<char>) -> bool {
    exists|i: int| 0 <= i < args.len() && #[trigger] args[i]@ == flag
}

/// Whether exactly `flag` occurs among `args`.
pub fn has_flag(args: &Vec<String>, flag: &str) -> (r: bool)
    ensures
        r == has_arg(args@, flag@),
{
    let wanted = String::from_str(flag);
    let mut i: usize = 0;
    while i < args.len()
        invariant
            i <= args@.len(),
            wanted@ == flag@,
            forall|k: int| 0 <= k < i ==> args@[k]@ != flag@,
        decreases args.len() - i,
    {
        if args[i] == wanted {
            return true;
        }
        i = i + 1;
    }
    false
}

/// Whether debug output was asked for on the command line.
pub fn has_debug_flag(args: &Vec<String>) -> (r: bool)
    ensures
        r == has_arg(args@, "--debug"@),
{
    has_flag(args, "--debug")
}

/// Whether the command line asks to skip the default configuration locations.
pub fn has_skip_default_config_flag(args: &Vec<String>) -> (r: bool)
    ensures
        r == has_arg(args@, "--skip-default-config"@),
{
    has_flag(args, "--skip-default-config")
}

/// Whether a configuration line carries an argument: comment lines start with '#'.
pub open spec fn is_config_argument(line: Seq<char>) -> bool {
    !(line.len() > 0 && line[0] == '#')
}

/// Keeps the argument lines of a configuration file, in order; the lines are
/// expected trimmed.
pub fn config_arguments(lines: &Vec<String>) -> (r: Vec<String>)
    ensures
        r@ == lines@.filter(|l: String| is_config_argument(l@)),
{
    let mut kept: Vec<String> = Vec::new();
    let mut i: usize = 0;
    while i < lines.len()
        invariant
            i <= lines@.len(),
            kept@ == lines@.take(i as int).filter(|l: String| is_config_argument(l@)),
        decreases lines.len() - i,
    {
        let line = &lines[i];
        proof {
            assert(lines@.take(i + 1) =~= lines@.take(i as int).push(lines@[i as int]));
            lines@.take(i as int).lemma_filter_push(lines@[i as int], |l: String| is_config_argument(l@));
        }
        let text = line.as_str();
        let is_comment = text.unicode_len() > 0 && text.get_char(0) == '#';
        if !is_comment {
            kept.push(line.clone());
        }
        i = i + 1;
    }
    assert(lines@.take(lines@.len() as int) =~= lines@);
    kept
}

} // verus!
