//! Files attached to a task: stored as `<id>-<name>` in the task's files
//! directory.
use vstd::prelude::*;
use crate::config::{agency_subdir, AgencyPaths};
use crate::task::{copy_chars, parse_id_dash, parse_id_dash_exec, str_views, worktree_name, worktree_name_spec, TaskRef};
use crate::text::{chars_of, decimal, join_path, parse_u32, parse_u32_spec, path_join, push_decimal, push_str_chars, str_eq, string_from_chars};

verus! {

/// A file attached to a task.
#[derive(Debug, PartialEq, Eq)]
pub struct FileRef {
    pub id: u32,
    pub name: String,
}

impl Clone for FileRef {
    fn clone(&self) -> (r: Self)
        ensures
            r == *self,
    {
        FileRef { id: self.id, name: self.name.clone() }
    }
}

/// The stored file name of an attachment: `<id>-<name>`.
pub open spec fn stored_name_spec(id: u32, name: Seq<char>) -> Seq<char> {
    decimal(id as nat) + seq!['-'] + name
}

/// The stored file name of an attachment: `<id>-<name>`.
pub fn format_file_name(id: u32, name: &str) -> (r: String)
    ensures
        r@ == stored_name_spec(id, name@),
{
    let mut out: Vec<char> = Vec::new();
    push_decimal(&mut out, id as u64);
    out.push('-');
    push_str_chars(&mut out, name);
    assert(out@ =~= stored_name_spec(id, name@));
    string_from_chars(out.as_slice())
}

impl FileRef {
    /// The stored file name: `<id>-<name>`.
    pub fn filename(&self) -> (r: String)
        ensures
            r@ == stored_name_spec(self.id, self.name@),
    {
        format_file_name(self.id, self.name.as_str())
    }
}

/// Reads a stored file name `<id>-<name>` (the pattern `^(\d+)-(.+)$`,
/// the id a `u32`).
pub fn parse_file_name(filename: &str) -> (r: Option<(u32, String)>)
    ensures
        match r {
            Some((id, name)) => parse_id_dash(filename@) == Some((id, name@)),
            None => parse_id_dash(filename@) is None,
        },
{
    let cs = chars_of(filename);
    match parse_id_dash_exec(cs.as_slice()) {
        Some((id, rest)) => Some((id, string_from_chars(rest.as_slice()))),
        None => None,
    }
}

/// Stored file names survive a round trip: formatting then reading gives
/// the id and name back, for a non-empty name without line feeds.
pub proof fn lemma_file_name_roundtrip(id: u32, name: Seq<char>)
    requires
        name.len() > 0,
        forall|i: int| 0 <= i < name.len() ==> name[i] != '\n',
    ensures
        parse_id_dash(stored_name_spec(id, name)) == Some((id, name)),
{
    crate::text::lemma_decimal_digits(id as nat);
    let d = decimal(id as nat);
    let s = stored_name_spec(id, name);
    crate::task::lemma_digit_run(s, 0);
    assert forall|i: int| 0 <= i < d.len() implies crate::text::is_ascii_digit(#[trigger] s[i]) by {
        assert(s[i] == d[i]);
    }
    lemma_digit_run_at_least(s, 0, d.len() as int);
    assert(s[d.len() as int] == '-');
    assert(crate::task::digit_run(s, 0) == d.len());
    assert(s.take(d.len() as int) =~= d);
    assert(s.skip(d.len() as int + 1) =~= name);
    assert(crate::text::unsigned_digits(d) == d);
}

pub proof fn lemma_digit_run_at_least(s: Seq<char>, k: int, n: int)
    requires
        0 <= k <= n <= s.len(),
        forall|i: int| k <= i < n ==> crate::text::is_ascii_digit(#[trigger] s[i]),
        n < s.len() ==> !crate::text::is_ascii_digit(s[n]),
    ensures
        crate::task::digit_run(s, k) == n - k,
    decreases n - k,
{
    if k < n {
        lemma_digit_run_at_least(s, k + 1, n);
    }
}

/// The directory that holds the files of a task: `<files_dir>/<id>-<slug>`.
pub fn files_dir_for_task(paths: &AgencyPaths, task: &TaskRef) -> (r: String)
    ensures
        r@ == path_join(agency_subdir(paths.root@, seq!['f', 'i', 'l', 'e', 's']), worktree_name_spec(task.id, task.slug@)),
{
    let dir = paths.files_dir();
    let name = worktree_name(task);
    join_path(dir.as_str(), name.as_str())
}

/// The stored path of an attachment.
pub fn file_path(paths: &AgencyPaths, task: &TaskRef, file: &FileRef) -> (r: String)
    ensures
        r@ == path_join(
            path_join(agency_subdir(paths.root@, seq!['f', 'i', 'l', 'e', 's']), worktree_name_spec(task.id, task.slug@)),
            stored_name_spec(file.id, file.name@),
        ),
{
    let dir = files_dir_for_task(paths, task);
    let name = file.filename();
    join_path(dir.as_str(), name.as_str())
}

/// `.agency/local/files`, relative to a worktree.
pub open spec fn local_files_dir_spec() -> Seq<char> {
    path_join(path_join(seq!['.', 'a', 'g', 'e', 'n', 'c', 'y'], seq!['l', 'o', 'c', 'a', 'l']), seq!['f', 'i', 'l', 'e', 's'])
}

/// Where a worktree sees the files of its task: `.agency/local/files`.
pub fn local_files_dir() -> (r: String)
    ensures
        r@ == local_files_dir_spec(),
{
    proof {
        reveal_strlit(".agency");
        reveal_strlit("local");
        reveal_strlit("files");
    }
    let a = join_path(".agency", "local");
    join_path(a.as_str(), "files")
}

/// The files directory inside a worktree.
pub fn local_files_path(worktree: &str) -> (r: String)
    ensures
        r@ == path_join(worktree@, local_files_dir_spec()),
{
    let d = local_files_dir();
    join_path(worktree, d.as_str())
}

/// The path of an attachment as shown to the user: relative to the
/// worktree when inside one, else the stored path.
pub fn display_path(paths: &AgencyPaths, task: &TaskRef, file: &FileRef, in_worktree: bool) -> (r: String)
    ensures
        in_worktree ==> r@ == path_join(local_files_dir_spec(), stored_name_spec(file.id, file.name@)),
        !in_worktree ==> r@ == path_join(
            path_join(agency_subdir(paths.root@, seq!['f', 'i', 'l', 'e', 's']), worktree_name_spec(task.id, task.slug@)),
            stored_name_spec(file.id, file.name@),
        ),
{
    if in_worktree {
        let d = local_files_dir();
        let n = file.filename();
        join_path(d.as_str(), n.as_str())
    } else {
        file_path(paths, task, file)
    }
}

/// The rows of the files table: id, name and displayed path of each file.
pub fn files_table_rows(paths: &AgencyPaths, task: &TaskRef, files: &[FileRef], in_worktree: bool) -> (rows: Vec<Vec<String>>)
    ensures
        rows@.len() == files@.len(),
        forall|i: int| 0 <= i < files@.len() ==> {
            let row = #[trigger] rows@[i];
            &&& row@.len() == 3
            &&& row@[0]@ == decimal(files@[i].id as nat)
            &&& row@[1]@ == files@[i].name@
            &&& row@[2]@ == (if in_worktree {
                path_join(local_files_dir_spec(), stored_name_spec(files@[i].id, files@[i].name@))
            } else {
                path_join(
                    path_join(agency_subdir(paths.root@, seq!['f', 'i', 'l', 'e', 's']), worktree_name_spec(task.id, task.slug@)),
                    stored_name_spec(files@[i].id, files@[i].name@),
                )
            })
        },
{
    let mut rows: Vec<Vec<String>> = Vec::new();
    let mut i: usize = 0;
    while i < files.len()
        invariant
            i <= files.len(),
            rows@.len() == i,
            forall|k: int| 0 <= k < i ==> {
                let row = #[trigger] rows@[k];
                &&& row@.len() == 3
                &&& row@[0]@ == decimal(files@[k].id as nat)
                &&& row@[1]@ == files@[k].name@
                &&& row@[2]@ == (if in_worktree {
                    path_join(local_files_dir_spec(), stored_name_spec(files@[k].id, files@[k].name@))
                } else {
                    path_join(
                        path_join(agency_subdir(paths.root@, seq!['f', 'i', 'l', 'e', 's']), worktree_name_spec(task.id, task.slug@)),
                        stored_name_spec(files@[k].id, files@[k].name@),
                    )
                })
            },
        decreases files.len() - i,
    {
        let f = &files[i];
        let mut row: Vec<String> = Vec::new();
        row.push(crate::text::u64_to_string(f.id as u64));
        row.push(f.name.clone());
        row.push(display_path(paths, task, f, in_worktree));
        rows.push(row);
        i += 1;
    }
    rows
}

// ---------------------------------------------------------------------------
// Listing: parse stored names and order by id
// ---------------------------------------------------------------------------

/// The view of an attachment: its id and name.
pub open spec fn file_view(f: FileRef) -> (u32, Seq<char>) {
    (f.id, f.name@)
}

/// The views of a sequence of attachments.
pub open spec fn file_views(v: Seq<FileRef>) -> Seq<(u32, Seq<char>)> {
    v.map_values(|f: FileRef| file_view(f))
}

/// The attachments among stored file names, in listing order.
pub open spec fn parsed_files(names: Seq<Seq<char>>) -> Seq<(u32, Seq<char>)>
    decreases names.len(),
{
    if names.len() == 0 {
        Seq::empty()
    } else {
        let prev = parsed_files(names.drop_last());
        match parse_id_dash(names.last()) {
            Some(f) => prev.push(f),
            None => prev,
        }
    }
}

/// Inserts `x` into `s` after every element whose id is at most `x`'s.
pub open spec fn insert_by_id(s: Seq<(u32, Seq<char>)>, x: (u32, Seq<char>)) -> Seq<(u32, Seq<char>)>
    decreases s.len(),
{
    if s.len() == 0 {
        seq![x]
    } else if s.last().0 <= x.0 {
        s.push(x)
    } else {
        insert_by_id(s.drop_last(), x).push(s.last())
    }
}

/// A stable sort by id: each element is inserted after the earlier ones
/// with an id at most its own.
pub open spec fn sort_by_id(s: Seq<(u32, Seq<char>)>) -> Seq<(u32, Seq<char>)>
    decreases s.len(),
{
    if s.len() == 0 {
        s
    } else {
        insert_by_id(sort_by_id(s.drop_last()), s.last())
    }
}

/// Ids never decrease along `s`.
pub open spec fn ids_sorted(s: Seq<(u32, Seq<char>)>) -> bool {
    forall|i: int, j: int| 0 <= i < j < s.len() ==> s[i].0 <= s[j].0
}

proof fn lemma_insert_sorted(s: Seq<(u32, Seq<char>)>, x: (u32, Seq<char>))
    requires
        ids_sorted(s),
    ensures
        ids_sorted(insert_by_id(s, x)),
        insert_by_id(s, x).len() == s.len() + 1,
        insert_by_id(s, x).to_multiset() == s.to_multiset().insert(x),
        forall|i: int| 0 <= i < insert_by_id(s, x).len() ==> (#[trigger] insert_by_id(s, x)[i] == x || s.contains(insert_by_id(s, x)[i])),
    decreases s.len(),
{
    broadcast use vstd::multiset::group_multiset_axioms;
    broadcast use vstd::seq_lib::group_seq_properties;
    if s.len() == 0 {
        assert(seq![x] =~= Seq::<(u32, Seq<char>)>::empty().push(x));
    } else if s.last().0 <= x.0 {
    } else {
        let t = s.drop_last();
        lemma_insert_sorted(t, x);
        let r = insert_by_id(t, x);
        assert(s =~= t.push(s.last()));
        assert forall|i: int| 0 <= i < r.len() implies #[trigger] r[i].0 <= s.last().0 by {
            if r[i] != x {
                assert(t.contains(r[i]));
                let k = choose|k: int| 0 <= k < t.len() && t[k] == r[i];
                assert(s[k] == t[k]);
            }
        }
        assert forall|i: int| 0 <= i < r.push(s.last()).len() implies (#[trigger] r.push(s.last())[i] == x || s.contains(r.push(s.last())[i])) by {
            if i < r.len() {
                if r[i] != x {
                    assert(t.contains(r[i]));
                    let k = choose|k: int| 0 <= k < t.len() && t[k] == r[i];
                    assert(s[k] == r[i]);
                }
            } else {
                assert(s[s.len() - 1] == s.last());
            }
        }
    }
}

/// Sorting by id orders the attachments by id and keeps exactly the same
/// attachments.
pub proof fn lemma_sort_by_id(s: Seq<(u32, Seq<char>)>)
    ensures
        ids_sorted(sort_by_id(s)),
        sort_by_id(s).to_multiset() == s.to_multiset(),
    decreases s.len(),
{
    broadcast use vstd::multiset::group_multiset_axioms;
    broadcast use vstd::seq_lib::group_seq_properties;
    if s.len() > 0 {
        lemma_sort_by_id(s.drop_last());
        lemma_insert_sorted(sort_by_id(s.drop_last()), s.last());
        assert(s =~= s.drop_last().push(s.last()));
    }
}

fn insert_by_id_exec(v: &mut Vec<FileRef>, x: FileRef)
    ensures
        file_views(final(v)@) == insert_by_id(file_views(old(v)@), file_view(x)),
{
    let ghost xs = file_views(v@);
    let mut pos: usize = v.len();
    assert(xs.take(pos as int) =~= xs);
    assert(xs.skip(pos as int) =~= Seq::<(u32, Seq<char>)>::empty());
    assert(insert_by_id(xs, file_view(x)) =~= insert_by_id(xs.take(pos as int), file_view(x)) + xs.skip(pos as int));
    while pos > 0 && v[pos - 1].id > x.id
        invariant
            pos <= v.len(),
            v@ == old(v)@,
            xs == file_views(v@),
            insert_by_id(xs, file_view(x)) == insert_by_id(xs.take(pos as int), file_view(x)) + xs.skip(pos as int),
        decreases pos,
    {
        proof {
            let t = xs.take(pos as int);
            assert(t.drop_last() =~= xs.take(pos - 1));
            assert(t.last() == xs[pos - 1]);
            assert(insert_by_id(t, file_view(x)) == insert_by_id(xs.take(pos - 1), file_view(x)).push(xs[pos - 1]));
            assert(insert_by_id(xs.take(pos - 1), file_view(x)).push(xs[pos - 1]) + xs.skip(pos as int)
                =~= insert_by_id(xs.take(pos - 1), file_view(x)) + xs.skip(pos - 1));
        }
        pos -= 1;
    }
    proof {
        let t = xs.take(pos as int);
        if pos == 0 {
            assert(t =~= Seq::<(u32, Seq<char>)>::empty());
            assert(insert_by_id(t, file_view(x)) =~= seq![file_view(x)]);
        } else {
            assert(t.last() == xs[pos - 1]);
            assert(insert_by_id(t, file_view(x)) == t.push(file_view(x)));
        }
    }
    v.insert(pos, x);
    proof {
        let t = xs.take(pos as int);
        assert(file_views(v@) =~= t.push(file_view(x)) + xs.skip(pos as int));
        if pos == 0 {
            assert(seq![file_view(x)] =~= t.push(file_view(x)));
        }
    }
}

/// The attachments among the stored file names of a task's files directory,
/// ordered by id (names that are not `<id>-<name>` are skipped; equal ids
/// keep listing order).
pub fn files_from_names(names: &[String]) -> (r: Vec<FileRef>)
    ensures
        file_views(r@) == sort_by_id(parsed_files(str_views(names@))),
{
    let ghost nv = str_views(names@);
    let mut out: Vec<FileRef> = Vec::new();
    let ghost parsed: Seq<(u32, Seq<char>)> = Seq::empty();
    let mut j: usize = 0;
    while j < names.len()
        invariant
            j <= names.len(),
            nv == str_views(names@),
            parsed == parsed_files(nv.take(j as int)),
            file_views(out@) == sort_by_id(parsed),
        decreases names.len() - j,
    {
        assert(nv.take(j + 1).drop_last() =~= nv.take(j as int));
        assert(nv.take(j + 1).last() == names@[j as int]@);
        if let Some((id, name)) = parse_file_name(names[j].as_str()) {
            let f = FileRef { id, name };
            proof {
                assert(parsed.push(file_view(f)).drop_last() =~= parsed);
                parsed = parsed.push(file_view(f));
            }
            insert_by_id_exec(&mut out, f);
        }
        j += 1;
    }
    assert(nv.take(names.len() as int) =~= nv);
    out
}

// ---------------------------------------------------------------------------
// Resolving, numbering and naming attachments
// ---------------------------------------------------------------------------

/// Why an attachment could not be resolved.
#[derive(Debug, Clone, Copy, PartialEq, Eq, Structural)]
pub enum FileError {
    /// The identifier is a number and no file has that id.
    IdNotFound,
    /// No file has that name.
    NameNotFound,
    /// Several files have that name.
    Ambiguous,
}

/// The message of a resolution error for the identifier `ident`; an id is
/// shown as the number it was read as.
pub open spec fn file_error_message(e: FileError, ident: Seq<char>) -> Seq<char> {
    match e {
        FileError::IdNotFound => "File "@ + match parse_u32_spec(ident) {
            Some(id) => decimal(id as nat),
            None => ident,
        } + " not found"@,
        FileError::NameNotFound => "File '"@ + ident + "' not found. Use ID or exact filename"@,
        FileError::Ambiguous => "Multiple files match '"@ + ident + "'. Use file ID instead"@,
    }
}

impl FileError {
    /// The error message for the identifier `ident`.
    pub fn message(&self, ident: &str) -> (m: String)
        ensures
            m@ == file_error_message(*self, ident@),
    {
        let mut out: Vec<char> = Vec::new();
        match self {
            FileError::IdNotFound => {
                push_str_chars(&mut out, "File ");
                let cs = chars_of(ident);
                match parse_u32(cs.as_slice()) {
                    Some(id) => push_decimal(&mut out, id as u64),
                    None => push_str_chars(&mut out, ident),
                }
                push_str_chars(&mut out, " not found");
            },
            FileError::NameNotFound => {
                push_str_chars(&mut out, "File '");
                push_str_chars(&mut out, ident);
                push_str_chars(&mut out, "' not found. Use ID or exact filename");
            },
            FileError::Ambiguous => {
                push_str_chars(&mut out, "Multiple files match '");
                push_str_chars(&mut out, ident);
                push_str_chars(&mut out, "'. Use file ID instead");
            },
        }
        proof {
            reveal_strlit("File ");
            reveal_strlit(" not found");
            reveal_strlit("File '");
            reveal_strlit("' not found. Use ID or exact filename");
            reveal_strlit("Multiple files match '");
            reveal_strlit("'. Use file ID instead");
        }
        string_from_chars(out.as_slice())
    }
}

/// The first attachment with id `id`, from position `k` on.
pub open spec fn file_with_id(files: Seq<(u32, Seq<char>)>, id: u32, k: int) -> Option<(u32, Seq<char>)>
    decreases files.len() - k,
{
    if k < 0 || k >= files.len() {
        None
    } else if files[k].0 == id {
        Some(files[k])
    } else {
        file_with_id(files, id, k + 1)
    }
}

/// How many attachments before position `k` have name `name`.
pub open spec fn name_count(files: Seq<(u32, Seq<char>)>, name: Seq<char>, k: int) -> nat
    decreases k,
{
    if k <= 0 || k > files.len() {
        0
    } else {
        name_count(files, name, k - 1) + (if files[k - 1].1 == name { 1nat } else { 0nat })
    }
}

/// The only attachment named `name`, when there is exactly one.
pub open spec fn file_named(files: Seq<(u32, Seq<char>)>, name: Seq<char>) -> (u32, Seq<char>) {
    let k = choose|k: int| 0 <= k < files.len() && files[k].1 == name;
    files[k]
}

/// How `resolve_file` answers: a `u32` identifier is an id; any other
/// identifier is an exact name, which must be unique.
pub open spec fn resolve_file_spec(files: Seq<(u32, Seq<char>)>, ident: Seq<char>) -> Result<(u32, Seq<char>), FileError> {
    match parse_u32_spec(ident) {
        Some(id) => match file_with_id(files, id, 0) {
            Some(f) => Ok(f),
            None => Err(FileError::IdNotFound),
        },
        None => {
            let n = name_count(files, ident, files.len() as int);
            if n == 0 {
                Err(FileError::NameNotFound)
            } else if n == 1 {
                Ok(file_named(files, ident))
            } else {
                Err(FileError::Ambiguous)
            }
        },
    }
}

proof fn lemma_name_count_zero(files: Seq<(u32, Seq<char>)>, name: Seq<char>, k: int)
    requires
        0 <= k <= files.len(),
        name_count(files, name, k) == 0,
    ensures
        forall|i: int| 0 <= i < k ==> files[i].1 != name,
    decreases k,
{
    if k > 0 {
        lemma_name_count_zero(files, name, k - 1);
    }
}

proof fn lemma_name_count_unique(files: Seq<(u32, Seq<char>)>, name: Seq<char>, k: int, at: int)
    requires
        0 <= at < k <= files.len(),
        files[at].1 == name,
        name_count(files, name, k) == 1,
    ensures
        forall|i: int| 0 <= i < k && files[i].1 == name ==> i == at,
    decreases k,
{
    if files[k - 1].1 == name {
        lemma_name_count_zero(files, name, k - 1);
    } else {
        lemma_name_count_unique(files, name, k - 1, at);
    }
}

/// Finds an attachment by id (a `u32` identifier) or by exact name.
pub fn resolve_file(files: &[FileRef], ident: &str) -> (r: Result<FileRef, FileError>)
    ensures
        match r {
            Ok(f) => resolve_file_spec(file_views(files@), ident@) == Ok::<(u32, Seq<char>), FileError>(file_view(f)),
            Err(e) => resolve_file_spec(file_views(files@), ident@) == Err::<(u32, Seq<char>), FileError>(e),
        },
{
    let ghost fv = file_views(files@);
    let cs = chars_of(ident);
    if let Some(id) = parse_u32(cs.as_slice()) {
        let mut j: usize = 0;
        while j < files.len()
            invariant
                j <= files.len(),
                fv == file_views(files@),
                parse_u32_spec(ident@) == Some(id),
                file_with_id(fv, id, 0) == file_with_id(fv, id, j as int),
            decreases files.len() - j,
        {
            if files[j].id == id {
                let f = files[j].clone();
                assert(fv[j as int] == file_view(files@[j as int]));
                assert(file_view(f) == fv[j as int]);
                assert(file_with_id(fv, id, j as int) == Some(fv[j as int]));
                return Ok(f);
            }
            j += 1;
        }
        return Err(FileError::IdNotFound);
    }
    let mut count: usize = 0;
    let mut found: usize = 0;
    let mut j: usize = 0;
    while j < files.len()
        invariant
            j <= files.len(),
            fv == file_views(files@),
            count == name_count(fv, ident@, j as int),
            count <= j,
            count > 0 ==> found < j && fv[found as int].1 == ident@,
        decreases files.len() - j,
    {
        if str_eq(files[j].name.as_str(), ident) {
            if count == 0 {
                found = j;
            }
            count += 1;
        }
        j += 1;
    }
    if count == 0 {
        Err(FileError::NameNotFound)
    } else if count == 1 {
        proof {
            lemma_name_count_unique(fv, ident@, fv.len() as int, found as int);
            let k = choose|k: int| 0 <= k < fv.len() && fv[k].1 == ident@;
            assert(k == found);
        }
        Ok(files[found].clone())
    } else {
        Err(FileError::Ambiguous)
    }
}

/// The largest id among attachments, or 0.
pub open spec fn max_file_id(files: Seq<(u32, Seq<char>)>) -> u32
    decreases files.len(),
{
    if files.len() == 0 {
        0
    } else {
        let m = max_file_id(files.drop_last());
        if files.last().0 > m { files.last().0 } else { m }
    }
}

/// The id for a new attachment: one more than the largest in use
/// (saturating at `u32::MAX`).
pub fn next_file_id(files: &[FileRef]) -> (r: u32)
    ensures
        r == (if max_file_id(file_views(files@)) == u32::MAX { u32::MAX } else { (max_file_id(file_views(files@)) + 1) as u32 }),
{
    let ghost fv = file_views(files@);
    let mut m: u32 = 0;
    let mut j: usize = 0;
    while j < files.len()
        invariant
            j <= files.len(),
            fv == file_views(files@),
            m == max_file_id(fv.take(j as int)),
        decreases files.len() - j,
    {
        assert(fv.take(j + 1).drop_last() =~= fv.take(j as int));
        if files[j].id > m {
            m = files[j].id;
        }
        j += 1;
    }
    assert(fv.take(files.len() as int) =~= fv);
    if m == u32::MAX { m } else { m + 1 }
}

/// The position of the last `.` in `s` before position `k`, or -1.
pub open spec fn last_dot_before(s: Seq<char>, k: int) -> int
    decreases k,
{
    if k <= 0 || k > s.len() {
        -1
    } else if s[k - 1] == '.' {
        k - 1
    } else {
        last_dot_before(s, k - 1)
    }
}

/// Splits a file name at its last `.`: stem and extension; a name without
/// a dot, or whose only dot is its first character, has no extension.
pub open spec fn stem_ext(name: Seq<char>) -> (Seq<char>, Seq<char>) {
    let p = last_dot_before(name, name.len() as int);
    if p > 0 {
        (name.take(p), name.skip(p + 1))
    } else {
        (name, Seq::empty())
    }
}

/// Splits a file name into stem and extension at its last `.`.
pub fn split_stem_ext(name: &str) -> (r: (String, String))
    ensures
        (r.0@, r.1@) == stem_ext(name@),
{
    let cs = chars_of(name);
    let mut k: usize = cs.len();
    while k > 0 && cs[k - 1] != '.'
        invariant
            k <= cs.len(),
            cs@ == name@,
            last_dot_before(name@, name@.len() as int) == last_dot_before(name@, k as int),
        decreases k,
    {
        k -= 1;
    }
    if k > 1 {
        let stem = copy_chars(cs.as_slice(), 0, k - 1);
        let ext = copy_chars(cs.as_slice(), k, cs.len());
        assert(stem@ =~= name@.take(k - 1));
        assert(ext@ =~= name@.skip(k as int));
        (string_from_chars(stem.as_slice()), string_from_chars(ext.as_slice()))
    } else {
        (name.to_string(), String::new())
    }
}

/// The `counter`-th candidate name for `name`: `<stem>-<counter>.<ext>`,
/// or `<stem>-<counter>` without an extension.
pub open spec fn candidate_name(name: Seq<char>, counter: u32) -> Seq<char> {
    let (stem, ext) = stem_ext(name);
    if ext.len() == 0 {
        stem + seq!['-'] + decimal(counter as nat)
    } else {
        stem + seq!['-'] + decimal(counter as nat) + seq!['.'] + ext
    }
}

fn candidate_exec(stem: &str, ext: &str, counter: u32) -> (r: String)
    ensures
        r@ == (if ext@.len() == 0 { stem@ + seq!['-'] + decimal(counter as nat) } else { stem@ + seq!['-'] + decimal(counter as nat) + seq!['.'] + ext@ }),
{
    let mut out: Vec<char> = Vec::new();
    push_str_chars(&mut out, stem);
    out.push('-');
    push_decimal(&mut out, counter as u64);
    let ec = chars_of(ext);
    if ec.len() > 0 {
        out.push('.');
        push_str_chars(&mut out, ext);
    }
    string_from_chars(out.as_slice())
}

/// Some attachment has name `name`.
pub open spec fn name_taken(files: Seq<(u32, Seq<char>)>, name: Seq<char>) -> bool {
    exists|i: int| 0 <= i < files.len() && #[trigger] files[i].1 == name
}

fn name_taken_exec(files: &[FileRef], name: &str) -> (r: bool)
    ensures
        r == name_taken(file_views(files@), name@),
{
    let ghost fv = file_views(files@);
    let mut j: usize = 0;
    while j < files.len()
        invariant
            j <= files.len(),
            fv == file_views(files@),
            forall|i: int| 0 <= i < j ==> #[trigger] fv[i].1 != name@,
        decreases files.len() - j,
    {
        if str_eq(files[j].name.as_str(), name) {
            assert(fv[j as int].1 == name@);
            return true;
        }
        j += 1;
    }
    false
}

/// The first counter from 2 to 1000 whose candidate is free, if any.
pub open spec fn first_free_counter(files: Seq<(u32, Seq<char>)>, name: Seq<char>, c: u32) -> Option<u32>
    decreases 1001 - c,
{
    if c < 2 || c > 1000 {
        None
    } else if !name_taken(files, candidate_name(name, c)) {
        Some(c)
    } else {
        first_free_counter(files, name, (c + 1) as u32)
    }
}

/// A name for a new attachment that no attachment has: `name` itself when
/// free, else the first free `<stem>-<n>[.<ext>]` for `n` from 2 to 1000;
/// `None` when all of those are taken.
pub open spec fn unique_name_spec(files: Seq<(u32, Seq<char>)>, name: Seq<char>) -> Option<Seq<char>> {
    if !name_taken(files, name) {
        Some(name)
    } else {
        match first_free_counter(files, name, 2) {
            Some(c) => Some(candidate_name(name, c)),
            None => None,
        }
    }
}

/// Picks a free name for a new attachment among `files`.
pub fn ensure_unique_name(files: &[FileRef], name: &str) -> (r: Option<String>)
    ensures
        match r {
            Some(n) => unique_name_spec(file_views(files@), name@) == Some(n@),
            None => unique_name_spec(file_views(files@), name@) is None,
        },
        r matches Some(n) ==> !name_taken(file_views(files@), n@),
{
    if !name_taken_exec(files, name) {
        return Some(name.to_string());
    }
    let (stem, ext) = split_stem_ext(name);
    let mut counter: u32 = 2;
    while counter <= 1000
        invariant
            2 <= counter <= 1001,
            (stem@, ext@) == stem_ext(name@),
            name_taken(file_views(files@), name@),
            first_free_counter(file_views(files@), name@, 2) == first_free_counter(file_views(files@), name@, counter),
        decreases 1001 - counter,
    {
        let candidate = candidate_exec(stem.as_str(), ext.as_str(), counter);
        assert(candidate@ == candidate_name(name@, counter));
        if !name_taken_exec(files, candidate.as_str()) {
            assert(first_free_counter(file_views(files@), name@, counter) == Some(counter));
            return Some(candidate);
        }
        counter += 1;
    }
    None
}

/// A name picked for a new attachment is never one already in use.
pub proof fn lemma_unique_name_is_free(files: Seq<(u32, Seq<char>)>, name: Seq<char>)
    ensures
        unique_name_spec(files, name) matches Some(n) ==> !name_taken(files, n),
{
    if name_taken(files, name) {
        lemma_first_free_counter(files, name, 2);
    }
}

proof fn lemma_first_free_counter(files: Seq<(u32, Seq<char>)>, name: Seq<char>, c: u32)
    ensures
        first_free_counter(files, name, c) matches Some(k) ==> !name_taken(files, candidate_name(name, k)),
    decreases 1001 - c,
{
    if 2 <= c <= 1000 && name_taken(files, candidate_name(name, c)) {
        lemma_first_free_counter(files, name, (c + 1) as u32);
    }
}

} // verus!
