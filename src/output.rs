use vstd::prelude::*;
use vstd::string::StrSliceExecFns;
use crate::parser::{lower_matches, same_word};

verus! {

/// File formats a picture can be saved in.
#[derive(Clone, Copy, Debug, PartialEq, Eq, Structural)]
pub enum ImageFormat {
    Ppm,
    Png,
}

/// Why a file name names no format a picture can be saved in.
#[derive(Clone, Copy, Debug, PartialEq, Eq, Structural)]
pub enum SaveError {
    /// The file name has no extension.
    NoExtension,
    /// The extension is neither `ppm` nor `png`.
    Unsupported,
}

/// Index of the last `c` in `s` before position `n`, or -1.
pub open spec fn last_index(s: Seq<char>, c: char, n: int) -> int
    decreases n,
{
    if n <= 0 {
        -1
    } else if s[n - 1] == c {
        n - 1
    } else {
        last_index(s, c, n - 1)
    }
}

/// The last component of a `/`-separated path.
pub open spec fn file_name(path: Seq<char>) -> Seq<char> {
    path.skip(last_index(path, '/', path.len() as int) + 1)
}

/// What follows the last `.` of the file name, unless that `.` opens the
/// name; empty when there is none.
pub open spec fn extension(path: Seq<char>) -> Seq<char> {
    let name = file_name(path);
    let k = last_index(name, '.', name.len() as int);
    if k > 0 {
        name.skip(k + 1)
    } else {
        seq![]
    }
}

/// The format that the extension of `path` names, ignoring ASCII case.
pub open spec fn format_of(path: Seq<char>) -> Result<ImageFormat, SaveError> {
    let e = extension(path);
    if e.len() == 0 {
        Err(SaveError::NoExtension)
    } else if same_word(e, "ppm"@) {
        Ok(ImageFormat::Ppm)
    } else if same_word(e, "png"@) {
        Ok(ImageFormat::Png)
    } else {
        Err(SaveError::Unsupported)
    }
}

proof fn lemma_last_index_bounds(s: Seq<char>, c: char, n: int)
    requires
        0 <= n <= s.len(),
    ensures
        -1 <= last_index(s, c, n) < n,
        last_index(s, c, n) >= 0 ==> s[last_index(s, c, n)] == c,
    decreases n,
{
    if n > 0 {
        lemma_last_index_bounds(s, c, n - 1);
    }
}

fn find_last(s: &str, c: char) -> (r: Option<usize>)
    ensures
        match r {
            Some(k) => k == last_index(s@, c, s@.len() as int),
            None => last_index(s@, c, s@.len() as int) == -1,
        },
{
    let n = s.unicode_len();
    let mut i: usize = n;
    while i > 0
        invariant
            i <= n,
            n == s@.len(),
            last_index(s@, c, n as int) == last_index(s@, c, i as int),
        decreases i,
    {
        if s.get_char(i - 1) == c {
            return Some(i - 1);
        }
        i = i - 1;
    }
    None
}

/// The format to save a picture in, from the extension of its file name.
pub fn image_format(path: &str) -> (r: Result<ImageFormat, SaveError>)
    ensures
        r == format_of(path@),
{
    let n = path.unicode_len();
    let slash = find_last(path, '/');
    proof {
        lemma_last_index_bounds(path@, '/', n as int);
    }
    let from = match slash {
        Some(k) => k + 1,
        None => 0,
    };
    let name = path.substring_char(from, n);
    assert(name@ =~= file_name(path@));
    let dot = find_last(name, '.');
    proof {
        lemma_last_index_bounds(name@, '.', name@.len() as int);
    }
    let dot = match dot {
        Some(k) if k > 0 => k,
        _ => {
            return Err(SaveError::NoExtension);
        },
    };
    let m = name.unicode_len();
    let ext = name.substring_char(dot + 1, m);
    assert(ext@ =~= extension(path@));
    if m == dot + 1 {
        Err(SaveError::NoExtension)
    } else if lower_matches(ext, "ppm") {
        Ok(ImageFormat::Ppm)
    } else if lower_matches(ext, "png") {
        Ok(ImageFormat::Png)
    } else {
        Err(SaveError::Unsupported)
    }
}

} // verus!
