//! What a screenshot's path says: the file's name and the application that
//! owns it. Paths are read as names separated by `/`.

use vstd::prelude::*;
use vstd::string::StrSliceExecFns;
use vstd::string::StringExecFns;

verus! {

/// Why a path could not be indexed.
#[derive(Debug, Clone, Copy, PartialEq, Eq, Structural)]
pub enum PathError {
    /// The path does not end in a file name.
    NoFileName,
    /// The path has no directory two levels above the file, that directory
    /// has no name, or a part of the path below it is empty or `.`.
    NoAppDirectory,
}

/// The position of the last `/` in `p`, or -1 where it has none.
pub open spec fn last_slash(p: Seq<char>) -> int
    decreases p.len(),
{
    if p.len() == 0 {
        -1
    } else if p.last() == '/' {
        p.len() - 1
    } else {
        last_slash(p.drop_last())
    }
}

/// What follows the last `/` of `p`: all of `p` where it has none.
pub open spec fn base_name(p: Seq<char>) -> Seq<char> {
    p.subrange(last_slash(p) + 1, p.len() as int)
}

/// What stands before the last `/` of `p`, if it has one.
pub open spec fn parent(p: Seq<char>) -> Option<Seq<char>> {
    if last_slash(p) < 0 {
        None
    } else {
        Some(p.subrange(0, last_slash(p)))
    }
}

/// A name is not empty and is neither `.` nor `..`.
pub open spec fn is_name(n: Seq<char>) -> bool {
    n.len() > 0 && n != seq!['.'] && n != seq!['.', '.']
}

/// A component of a path is not empty and is not `.`.
pub open spec fn is_component(n: Seq<char>) -> bool {
    n.len() > 0 && n != seq!['.']
}

/// The file name that `p` ends in.
pub open spec fn filename_of(p: Seq<char>) -> Option<Seq<char>> {
    if is_name(base_name(p)) {
        Some(base_name(p))
    } else {
        None
    }
}

/// The name of the directory two levels above the file that `p` names.
/// There is none where one of the last three parts of `p` is empty or `.`:
/// such a path is not read as if the part were not there.
pub open spec fn app_id_of(p: Seq<char>) -> Option<Seq<char>> {
    match parent(p) {
        Some(dir) => match parent(dir) {
            Some(app_dir) => if is_component(base_name(p)) && is_component(base_name(dir)) && is_name(
                base_name(app_dir),
            ) {
                Some(base_name(app_dir))
            } else {
                None
            },
            None => None,
        },
        None => None,
    }
}

/// `last_slash` is the one position that holds a `/` with none after it.
pub proof fn lemma_last_slash_is(p: Seq<char>, at: int)
    requires
        -1 <= at < p.len(),
        at >= 0 ==> p[at] == '/',
        forall|j: int| at < j < p.len() ==> p[j] != '/',
    ensures
        last_slash(p) == at,
    decreases p.len(),
{
    if p.len() > 0 && at < p.len() - 1 {
        lemma_last_slash_is(p.drop_last(), at);
    }
}

/// The position of the last `/` among the first `end` characters of `s`.
fn last_slash_before(s: &str, end: usize) -> (r: Option<usize>)
    requires
        end <= s@.len(),
    ensures
        match r {
            Some(at) => at < end && at == last_slash(s@.subrange(0, end as int)),
            None => last_slash(s@.subrange(0, end as int)) == -1,
        },
{
    let ghost head = s@.subrange(0, end as int);
    let mut i: usize = end;
    while i > 0
        invariant
            i <= end <= s@.len(),
            head == s@.subrange(0, end as int),
            forall|j: int| i <= j < end ==> head[j] != '/',
        decreases i,
    {
        i = i - 1;
        if s.get_char(i) == '/' {
            proof {
                lemma_last_slash_is(head, i as int);
            }
            return Some(i);
        }
    }
    proof {
        lemma_last_slash_is(head, -1);
    }
    None
}

/// Whether the characters of `s` from `from` to `to` form a name.
fn is_name_between(s: &str, from: usize, to: usize) -> (r: bool)
    requires
        from <= to <= s@.len(),
    ensures
        r == is_name(s@.subrange(from as int, to as int)),
{
    let ghost part = s@.subrange(from as int, to as int);
    if to == from {
        false
    } else if to - from == 1 {
        let c: char = s.get_char(from);
        proof {
            assert(part[0] == c);
            assert(c != '.' ==> part != seq!['.']);
            assert(c == '.' ==> part =~= seq!['.']);
            assert(part.len() == 1);
            assert(seq!['.', '.'].len() == 2);
        }
        c != '.'
    } else if to - from == 2 {
        let c: char = s.get_char(from);
        let d: char = s.get_char(from + 1);
        proof {
            assert(part[0] == c && part[1] == d);
            assert(seq!['.', '.'][0] == '.' && seq!['.', '.'][1] == '.');
            assert(c == '.' && d == '.' ==> part =~= seq!['.', '.']);
            assert(seq!['.'].len() == 1);
        }
        !(c == '.' && d == '.')
    } else {
        proof {
            assert(seq!['.'].len() == 1);
            assert(seq!['.', '.'].len() == 2);
        }
        true
    }
}

/// Whether the characters of `s` from `from` to `to` form a component.
fn is_component_between(s: &str, from: usize, to: usize) -> (r: bool)
    requires
        from <= to <= s@.len(),
    ensures
        r == is_component(s@.subrange(from as int, to as int)),
{
    let ghost part = s@.subrange(from as int, to as int);
    if to == from {
        false
    } else if to - from == 1 {
        let c: char = s.get_char(from);
        proof {
            assert(part[0] == c);
            assert(c == '.' ==> part =~= seq!['.']);
        }
        c != '.'
    } else {
        proof {
            assert(seq!['.'].len() == 1);
        }
        true
    }
}

/// The file name of a screenshot: what follows the last `/` of its path.
/// Fails where the path ends in `/`, `.` or `..`, or is empty.
pub fn get_filename(filepath: &String) -> (r: Result<String, PathError>)
    ensures
        match r {
            Ok(name) => filename_of(filepath@) == Some(name@),
            Err(e) => filename_of(filepath@).is_none() && e == PathError::NoFileName,
        },
{
    let s: &str = filepath.as_str();
    let len: usize = s.unicode_len();
    proof {
        assert(s@.subrange(0, len as int) =~= s@);
    }
    let start: usize = match last_slash_before(s, len) {
        Some(at) => at + 1,
        None => 0,
    };
    if is_name_between(s, start, len) {
        Ok(String::from_str(s.substring_char(start, len)))
    } else {
        Err(PathError::NoFileName)
    }
}

/// The application that owns a screenshot: the name of the directory two
/// levels above the file. Fails where the path is not that deep, where that
/// directory's name is empty, `.` or `..`, and where the file's or its
/// directory's part of the path is empty or `.`.
pub fn get_app_id(filepath: &String) -> (r: Result<String, PathError>)
    ensures
        match r {
            Ok(id) => app_id_of(filepath@) == Some(id@),
            Err(e) => app_id_of(filepath@).is_none() && e == PathError::NoAppDirectory,
        },
{
    let s: &str = filepath.as_str();
    let len: usize = s.unicode_len();
    proof {
        assert(s@.subrange(0, len as int) =~= s@);
    }
    let dir_end: usize = match last_slash_before(s, len) {
        Some(at) => at,
        None => {
            return Err(PathError::NoAppDirectory);
        },
    };
    let ghost dir = s@.subrange(0, dir_end as int);
    let app_end: usize = match last_slash_before(s, dir_end) {
        Some(at) => at,
        None => {
            return Err(PathError::NoAppDirectory);
        },
    };
    proof {
        assert(dir.subrange(app_end + 1, dir_end as int) =~= s@.subrange(app_end + 1, dir_end as int));
    }
    if !is_component_between(s, dir_end + 1, len) || !is_component_between(s, app_end + 1, dir_end) {
        return Err(PathError::NoAppDirectory);
    }
    let ghost app_dir = s@.subrange(0, app_end as int);
    proof {
        assert(dir.subrange(0, app_end as int) =~= app_dir);
    }
    let start: usize = match last_slash_before(s, app_end) {
        Some(at) => at + 1,
        None => 0,
    };
    proof {
        assert(app_dir.subrange(start as int, app_end as int) =~= s@.subrange(
            start as int,
            app_end as int,
        ));
    }
    if is_name_between(s, start, app_end) {
        Ok(String::from_str(s.substring_char(start, app_end)))
    } else {
        Err(PathError::NoAppDirectory)
    }
}

} // verus!
