use vstd::prelude::*;
use vstd::string::StrSliceExecFns;
use vstd::string::StringExecFns;

verus! {

/// Whether `c` is an ASCII decimal digit.
pub open spec fn is_digit_char(c: char) -> bool {
    '0' <= c && c <= '9'
}

/// The first position at or after `i` in `s` that does not hold a digit, or
/// the end of `s` if digits run to the end.
pub open spec fn digit_run_end(s: Seq<char>, i: int) -> int
    recommends
        0 <= i <= s.len(),
    decreases s.len() - i,
{
    if i < s.len() && is_digit_char(s[i]) {
        digit_run_end(s, i + 1)
    } else {
        i
    }
}

/// `digit_run_end` stays within bounds, covers digits only, and stops at the
/// first non-digit.
pub proof fn lemma_digit_run_end(s: Seq<char>, i: int)
    requires
        0 <= i <= s.len(),
    ensures
        i <= digit_run_end(s, i) <= s.len(),
        forall|j: int| i <= j < digit_run_end(s, i) ==> is_digit_char(s[j]),
        digit_run_end(s, i) < s.len() ==> !is_digit_char(s[digit_run_end(s, i)]),
    decreases s.len() - i,
{
    if i < s.len() && is_digit_char(s[i]) {
        lemma_digit_run_end(s, i + 1);
    }
}

/// The version and description encoded in a migration filename.
///
/// A migration filename has the shape `V<digits>__<description>.sql`, with at
/// least one digit and a non-empty description; the digit run is maximal, so
/// the two underscores must follow the last digit directly. Any other name is
/// not a migration and yields `None`.
pub open spec fn filename_parts(s: Seq<char>) -> Option<(Seq<char>, Seq<char>)> {
    let n = s.len() as int;
    if n >= 1 && s[0] == 'V' {
        let d = digit_run_end(s, 1);
        if d >= 2 && d + 2 < n - 4 && s[d] == '_' && s[d + 1] == '_' && s[n - 4] == '.' && s[n - 3]
            == 's' && s[n - 2] == 'q' && s[n - 1] == 'l' {
            Some((s.subrange(1, d), s.subrange(d + 2, n - 4)))
        } else {
            None
        }
    } else {
        None
    }
}

/// Whether `c` is an ASCII decimal digit.
pub fn is_digit(c: char) -> (r: bool)
    ensures
        r == is_digit_char(c),
{
    let u = c as u32;
    48 <= u && u <= 57
}

/// Split a directory entry's name into the version and description of a
/// migration script, or report that the name does not follow the migration
/// pattern (such entries are skipped, not rejected).
pub fn parse_migration_filename(name: &str) -> (r: Option<(String, String)>)
    ensures
        (match r {
            Some(p) => filename_parts(name@) == Some((p.0@, p.1@)),
            None => filename_parts(name@) is None,
        }),
{
    let n = name.unicode_len();
    if n < 1 || name.get_char(0) != 'V' {
        return None;
    }
    let mut d: usize = 1;
    while d < n && is_digit(name.get_char(d))
        invariant
            1 <= d <= n,
            n == name@.len(),
            digit_run_end(name@, 1) == digit_run_end(name@, d as int),
        decreases n - d,
    {
        d = d + 1;
    }
    proof {
        assert(digit_run_end(name@, 1) == d);
    }
    if d < 2 {
        return None;
    }
    if n < 9 || d >= n - 6 {
        return None;
    }
    if name.get_char(d) != '_' || name.get_char(d + 1) != '_' {
        return None;
    }
    if name.get_char(n - 4) != '.' || name.get_char(n - 3) != 's' || name.get_char(n - 2) != 'q'
        || name.get_char(n - 1) != 'l' {
        return None;
    }
    let version = String::from_str(name.substring_char(1, d));
    let description = String::from_str(name.substring_char(d + 2, n - 4));
    Some((version, description))
}

} // verus!
