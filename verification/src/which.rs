//! Finding a program on the search path: which paths are tried, in order,
//! and what makes a file executable. Looking at the files is I/O.
use vstd::prelude::*;
use crate::bootstrap::views;
use crate::split::{char_vec_views, fields_of, split_fields};
use crate::text::{chars_of, join_path, path_join, string_from_chars};

verus! {

/// The paths tried for `program`, in order: the program itself when it
/// names a path (holds a `/`); else the program inside each directory of
/// the `:`-separated search path, none when the search path is unset.
pub open spec fn which_candidates_spec(program: Seq<char>, path_var: Option<Seq<char>>) -> Seq<Seq<char>> {
    if program.contains('/') {
        seq![program]
    } else {
        match path_var {
            None => seq![],
            Some(p) => fields_of(p, ':').map_values(|dir: Seq<char>| path_join(dir, program)),
        }
    }
}

/// The paths tried for `program`, the first executable one of which is
/// the answer.
pub fn which_candidates(program: &str, path_var: Option<&str>) -> (r: Vec<String>)
    ensures
        views(r@) == which_candidates_spec(program@, match path_var {
            Some(p) => Some(p@),
            None => None,
        }),
{
    let pc = chars_of(program);
    let mut k: usize = 0;
    while k < pc.len()
        invariant
            k <= pc.len(),
            pc@ == program@,
            forall|j: int| 0 <= j < k ==> pc@[j] != '/',
        decreases pc.len() - k,
    {
        if pc[k] == '/' {
            let mut out: Vec<String> = Vec::new();
            out.push(string_from_chars(pc.as_slice()));
            assert(program@.contains('/')) by {
                assert(program@[k as int] == '/');
            }
            assert(views(out@) =~= seq![program@]);
            return out;
        }
        k += 1;
    }
    assert(!program@.contains('/'));
    let mut out: Vec<String> = Vec::new();
    match path_var {
        None => {
            assert(views(out@) =~= Seq::<Seq<char>>::empty());
            out
        },
        Some(p) => {
            let pcs = chars_of(p);
            let dirs = split_fields(pcs.as_slice(), ':');
            let ghost target = fields_of(p@, ':').map_values(|dir: Seq<char>| path_join(dir, program@));
            let mut i: usize = 0;
            while i < dirs.len()
                invariant
                    i <= dirs.len(),
                    char_vec_views(dirs@) == fields_of(p@, ':'),
                    target == fields_of(p@, ':').map_values(|dir: Seq<char>| path_join(dir, program@)),
                    views(out@) =~= target.take(i as int),
                decreases dirs.len() - i,
            {
                let d = string_from_chars(dirs[i].as_slice());
                let joined = join_path(d.as_str(), program);
                let ghost before = out@;
                out.push(joined);
                proof {
                    assert(dirs@[i as int]@ == char_vec_views(dirs@)[i as int]);
                    assert(views(out@) =~= views(before).push(joined@));
                    assert(target.take(i + 1) =~= target.take(i as int).push(target[i as int]));
                }
                i += 1;
            }
            assert(target.take(dirs.len() as int) =~= target);
            out
        },
    }
}

/// Whether permission bits `mode` let someone execute the file.
pub fn has_exec_bit(mode: u32) -> (r: bool)
    ensures
        r == (mode & 0o111u32 != 0),
{
    mode & 0o111u32 != 0
}

} // verus!
