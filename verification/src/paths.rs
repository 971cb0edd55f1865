//! Paths read as components, as `std::path::Path` does for `/`-separated
//! paths.
use vstd::prelude::*;
use crate::split::{char_vec_views, chars_eq, fields_of, split_fields};
use crate::text::{chars_of, path_join, string_from_chars};

verus! {

/// The components of a path: its parts between `/`, without empty ones and
/// `.`; an absolute path starts with an empty marker component.
pub open spec fn components(p: Seq<char>) -> Seq<Seq<char>> {
    let parts = fields_of(p, '/');
    let kept = keep_parts(parts);
    if p.len() > 0 && p[0] == '/' { seq![Seq::empty()] + kept } else { kept }
}

/// The parts that are neither empty nor `.`.
pub open spec fn keep_parts(parts: Seq<Seq<char>>) -> Seq<Seq<char>>
    decreases parts.len(),
{
    if parts.len() == 0 {
        Seq::empty()
    } else {
        let prev = keep_parts(parts.drop_last());
        let q = parts.last();
        if q.len() == 0 || q == seq!['.'] { prev } else { prev.push(q) }
    }
}

/// `Path::starts_with` on components: `base`'s components begin `path`'s.
pub open spec fn path_starts_with(path: Seq<char>, base: Seq<char>) -> bool {
    let a = components(path);
    let b = components(base);
    b.len() <= a.len() && a.take(b.len() as int) == b
}

fn component_list(p: &str) -> (r: Vec<Vec<char>>)
    ensures
        char_vec_views(r@) == components(p@),
{
    let cs = chars_of(p);
    let parts = split_fields(cs.as_slice(), '/');
    let ghost pv = char_vec_views(parts@);
    let mut out: Vec<Vec<char>> = Vec::new();
    if cs.len() > 0 && cs[0] == '/' {
        out.push(Vec::new());
    }
    let ghost head = char_vec_views(out@);
    let mut i: usize = 0;
    while i < parts.len()
        invariant
            i <= parts.len(),
            pv == char_vec_views(parts@),
            pv == fields_of(p@, '/'),
            char_vec_views(out@) == head + keep_parts(pv.take(i as int)),
        decreases parts.len() - i,
    {
        assert(pv.take(i + 1).drop_last() =~= pv.take(i as int));
        assert(pv.take(i + 1).last() == parts@[i as int]@);
        let q = &parts[i];
        let is_dot = q.len() == 1 && q[0] == '.';
        if q.len() > 0 && !is_dot {
            let ghost before = char_vec_views(out@);
            let c = crate::task::copy_chars(q.as_slice(), 0, q.len());
            assert(c@ =~= q@);
            out.push(c);
            assert(char_vec_views(out@) =~= before.push(q@));
        } else {
            proof {
                if q.len() == 1 {
                    assert(q@ =~= seq!['.'] <==> is_dot);
                }
            }
        }
        i += 1;
    }
    assert(pv.take(parts.len() as int) =~= pv);
    proof {
        if p@.len() > 0 && p@[0] == '/' {
            assert(head =~= seq![Seq::<char>::empty()]);
        } else {
            assert(head =~= Seq::<Seq<char>>::empty());
            assert(head + keep_parts(pv) =~= keep_parts(pv));
        }
    }
    out
}

/// Whether `path` lies within `base`, component by component.
pub fn starts_with_path(path: &str, base: &str) -> (r: bool)
    ensures
        r == path_starts_with(path@, base@),
{
    let a = component_list(path);
    let b = component_list(base);
    let ghost av = char_vec_views(a@);
    let ghost bv = char_vec_views(b@);
    assert(av.len() == a@.len() && bv.len() == b@.len());
    if b.len() > a.len() {
        return false;
    }
    let mut i: usize = 0;
    while i < b.len()
        invariant
            i <= b.len() <= a.len(),
            av == char_vec_views(a@),
            bv == char_vec_views(b@),
            av.len() == a@.len(),
            bv.len() == b@.len(),
            av == components(path@),
            bv == components(base@),
            forall|k: int| 0 <= k < i ==> av[k] == bv[k],
        decreases b.len() - i,
    {
        if !chars_eq(a[i].as_slice(), b[i].as_slice()) {
            assert(av[i as int] == a@[i as int]@ && bv[i as int] == b@[i as int]@);
            assert(av.take(bv.len() as int)[i as int] != bv[i as int]);
            return false;
        }
        i += 1;
    }
    assert(av.take(bv.len() as int) =~= bv);
    true
}

/// The file name of a path (`Path::file_name`): its last component, unless
/// that is the root or `..`.
pub open spec fn file_name_spec(p: Seq<char>) -> Option<Seq<char>> {
    let c = components(p);
    if c.len() == 0 {
        None
    } else if c.last().len() == 0 || c.last() == seq!['.', '.'] {
        None
    } else {
        Some(c.last())
    }
}

/// The file name of a path, if it has one.
pub fn file_name(p: &str) -> (r: Option<String>)
    ensures
        match r {
            Some(n) => file_name_spec(p@) == Some(n@),
            None => file_name_spec(p@) is None,
        },
{
    let c = component_list(p);
    let ghost cv = char_vec_views(c@);
    if c.len() == 0 {
        return None;
    }
    let last = &c[c.len() - 1];
    assert(cv.last() == last@);
    let dd = vec!['.', '.'];
    assert(dd@ =~= seq!['.', '.']);
    if last.len() == 0 || chars_eq(last.as_slice(), dd.as_slice()) {
        return None;
    }
    Some(string_from_chars(last.as_slice()))
}

/// The last field of `str::split` is what follows the last separator: `m`
/// is where that field starts (just after a separator, or where the scan
/// started when none is left).
proof fn lemma_last_field(s: Seq<char>, sep: char, k: int, start: int, m: int)
    requires
        0 <= start <= k,
        0 <= m <= s.len(),
        (k <= m - 1 && s[m - 1] == sep) || (k >= m && start == m),
        forall|j: int| m <= j < s.len() ==> s[j] != sep,
    ensures
        crate::split::fields_acc(s, sep, k, start).last() == s.subrange(m, s.len() as int),
    decreases s.len() - k,
{
    if k < s.len() {
        if s[k] == sep {
            lemma_last_field(s, sep, k + 1, k + 1, m);
            crate::fzf::lemma_fields_nonempty(s, sep, k + 1, k + 1);
        } else {
            lemma_last_field(s, sep, k + 1, start, m);
        }
    }
}

/// A name without `/` (and not `.` or `..`) joined to any directory is the
/// file name of the joined path.
pub proof fn lemma_file_name_of_join(dir: Seq<char>, name: Seq<char>)
    requires
        name.len() > 0,
        !name.contains('/'),
        name != seq!['.'],
        name != seq!['.', '.'],
    ensures
        file_name_spec(path_join(dir, name)) == Some(name),
{
    let p = path_join(dir, name);
    let x = if dir.len() == 0 { dir } else if dir.last() == '/' { dir } else { dir + seq!['/'] };
    assert(p =~= x + name);
    let m = x.len() as int;
    assert forall|j: int| m <= j < p.len() implies p[j] != '/' by {
        assert(p[j] == name[j - m]);
        if p[j] == '/' {
            assert(name.contains('/'));
        }
    }
    if m > 0 {
        assert(p[m - 1] == x[m - 1]);
    }
    lemma_last_field(p, '/', 0, 0, m);
    crate::fzf::lemma_fields_nonempty(p, '/', 0, 0);
    assert(p.subrange(m, p.len() as int) =~= name);
    let parts = fields_of(p, '/');
    let kept = keep_parts(parts);
    assert(kept == keep_parts(parts.drop_last()).push(name));
    let c = components(p);
    assert(c.last() == name);
}

} // verus!
