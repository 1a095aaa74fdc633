use vstd::prelude::*;

use crate::error::ScanError;

verus! {

/// The extension that marks a comma-separated file, with its dot.
pub open spec fn csv_suffix() -> Seq<char> {
    seq!['.', 'c', 's', 'v']
}

/// The path without its trailing separators and trailing `.` parts, which
/// name no file of their own: `a.csv/`, `a.csv//` and `a.csv/.` all end in
/// the file name `a.csv`.
pub open spec fn trim_tail(p: Seq<char>) -> Seq<char>
    decreases p.len(),
{
    if p.len() > 0 && p.last() == '/' {
        trim_tail(p.drop_last())
    } else if p.len() > 1 && p.last() == '.' && p[p.len() - 2] == '/' {
        trim_tail(p.drop_last())
    } else {
        p
    }
}

/// A path names a `.csv` file when its file name (the last part, once
/// trailing separators and `.` parts are dropped) ends in `.csv`
/// (case-sensitive) and has something before that suffix: `data.csv` and
/// `data.csv/` do, `.csv` and `dir/.csv` do not, as a leading dot marks a
/// hidden file, not an extension.
pub open spec fn is_csv_path(p: Seq<char>) -> bool {
    let t = trim_tail(p);
    &&& t.len() > 4
    &&& t.subrange(t.len() - 4, t.len() as int) == csv_suffix()
    &&& t[t.len() - 5] != '/'
}

/// Accepts a path whose extension is `csv`, and refuses every other one with
/// `InvalidFileType`. Looks at the text of the path only.
pub fn validate_csv_extension(file_path: &str) -> (r: Result<(), ScanError>)
    ensures
        r is Ok <==> is_csv_path(file_path@),
        r is Err ==> r == Err::<(), ScanError>(ScanError::InvalidFileType),
{
    let ghost p = file_path@;
    let mut n = file_path.unicode_len();
    assert(p.take(n as int) =~= p);
    loop
        invariant
            n <= p.len(),
            p == file_path@,
            trim_tail(p.take(n as int)) == trim_tail(p),
        ensures
            n <= p.len(),
            trim_tail(p.take(n as int)) == trim_tail(p),
            trim_tail(p.take(n as int)) == p.take(n as int),
        decreases n,
    {
        let ghost q = p.take(n as int);
        if n > 0 && file_path.get_char(n - 1) == '/' {
            assert(q.drop_last() =~= p.take(n - 1));
            n = n - 1;
        } else if n > 1 && file_path.get_char(n - 1) == '.' && file_path.get_char(n - 2) == '/' {
            assert(q.drop_last() =~= p.take(n - 1));
            n = n - 1;
        } else {
            assert(n > 0 ==> q.last() == p[n - 1]);
            assert(n > 1 ==> q[n - 2] == p[n - 2]);
            break;
        }
    }
    let ghost t = p.take(n as int);
    if n <= 4 {
        return Err(ScanError::InvalidFileType);
    }
    let ok = file_path.get_char(n - 5) != '/' && file_path.get_char(n - 4) == '.'
        && file_path.get_char(n - 3) == 'c' && file_path.get_char(n - 2) == 's'
        && file_path.get_char(n - 1) == 'v';
    proof {
        if ok {
            assert(t.subrange(n - 4, n as int) =~= csv_suffix());
        }
        if t.subrange(n - 4, n as int) == csv_suffix() {
            assert(t.subrange(n - 4, n as int)[0] == t[n - 4]);
            assert(t.subrange(n - 4, n as int)[1] == t[n - 3]);
            assert(t.subrange(n - 4, n as int)[2] == t[n - 2]);
            assert(t.subrange(n - 4, n as int)[3] == t[n - 1]);
        }
    }
    if ok {
        Ok(())
    } else {
        Err(ScanError::InvalidFileType)
    }
}

} // verus!
