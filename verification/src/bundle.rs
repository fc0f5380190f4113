use vstd::prelude::*;

verus! {

/// Which directory entries a flat debug bundle takes: plain files whose names
/// do not start with a dot. Directories and hidden files are skipped.
pub fn should_bundle_entry(name: &str, is_file: bool) -> (r: bool)
    ensures
        r == (is_file && !(name@.len() > 0 && name@[0] == '.')),
{
    if !is_file {
        return false;
    }
    let len = name.unicode_len();
    if len == 0 {
        return true;
    }
    let first = name.get_char(0);
    first != '.'
}

} // verus!
