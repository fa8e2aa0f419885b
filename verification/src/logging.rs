//! The log files' naming rules: where the log directory and the base log
//! file live, and which file names belong to the log set when it is
//! cleared. Opening, rotating and removing files stays outside this crate.

use vstd::prelude::*;

use crate::text::{str_eq_str, str_has_at, has_at};

verus! {

/// The log directory under the platform's state directory:
/// `<base>/rfc_reader/logs`.
pub fn get_log_files_dir_path(base_dir: &str) -> (r: String)
    ensures
        r@ == base_dir@ + "/rfc_reader/logs"@,
{
    base_dir.to_owned().concat("/rfc_reader/logs")
}

/// The base log file inside the log directory: `<dir>/rfc_reader.log`.
/// Rotated files append a suffix to this name.
pub fn get_base_log_file_path(logs_dir: &str) -> (r: String)
    ensures
        r@ == logs_dir@ + "/rfc_reader.log"@,
{
    logs_dir.to_owned().concat("/rfc_reader.log")
}

/// Whether `name` belongs to the log set for base name `base`: the base
/// name itself, or the base name followed by a suffix that starts with a
/// full stop (as rotation writes it).
pub open spec fn log_file_name(name: Seq<char>, base: Seq<char>) -> bool {
    ||| name == base
    ||| (name.len() > base.len() && name.take(base.len() as int) == base && name[base.len() as int]
        == '.')
}

/// Decides `log_file_name`.
pub fn is_log_file_name(name: &str, base: &str) -> (r: bool)
    ensures
        r == log_file_name(name@, base@),
{
    if str_eq_str(name, base) {
        return true;
    }
    let n = name.unicode_len();
    let m = base.unicode_len();
    if n <= m {
        proof {
            if log_file_name(name@, base@) {
                assert(name@.len() > base@.len());
            }
        }
        return false;
    }
    let r = str_has_at(name, 0, base) && name.get_char(m) == '.';
    proof {
        assert(name@.take(m as int) =~= name@.subrange(0, m as int));
        if has_at(name@, 0, base@) {
            assert(name@.take(m as int) == base@);
        } else if name@.take(m as int) == base@ {
            assert(name@.subrange(0, m as int) == base@);
        }
    }
    r
}

} // verus!
