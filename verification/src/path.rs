//! Paths as text, and the one operation the tool performs on them: appending a
//! component the way a path buffer does on a Unix system.

use vstd::prelude::*;
use vstd::string::*;

verus! {

/// `rel` appended to `base`: an absolute `rel` replaces `base`; otherwise a
/// separator is put between the two unless `base` is empty or already ends
/// with one.
pub open spec fn path_join(base: Seq<char>, rel: Seq<char>) -> Seq<char> {
    if rel.len() > 0 && rel[0] == '/' {
        rel
    } else if base.len() == 0 || base.last() == '/' {
        base + rel
    } else {
        base + seq!['/'] + rel
    }
}

/// Appends the component `rel` to the path `base` (see `path_join`).
pub fn join_path(base: &str, rel: &str) -> (r: String)
    ensures
        r@ == path_join(base@, rel@),
{
    let rel_len = rel.unicode_len();
    if rel_len > 0 && rel.get_char(0) == '/' {
        return rel.to_owned();
    }
    let base_len = base.unicode_len();
    let mut out = base.to_owned();
    if base_len > 0 && base.get_char(base_len - 1) != '/' {
        out.append("/");
        proof {
            reveal_strlit("/");
        }
    }
    out.append(rel);
    out
}

/// The default configuration directory of the tool under the home directory
/// `home`: `<home>/.config/dv/`.
pub fn default_config_dir(home: &str) -> (r: String)
    ensures
        r@ == path_join(home@, ".config/dv/"@),
{
    join_path(home, ".config/dv/")
}

/// A path that was checked on a user's machine: a single file, or a directory
/// together with the entries found in it.
pub enum CheckedPath {
    File(String),
    Dir { path: String, files: Vec<String> },
}

/// The files to copy for a checked path: the file itself, or each entry of the
/// directory appended to the directory's path, in listing order.
pub open spec fn copy_plan(info: CheckedPath) -> Seq<Seq<char>> {
    match info {
        CheckedPath::File(p) => seq![p@],
        CheckedPath::Dir { path, files } => files@.map_values(|f: String| path_join(path@, f@)),
    }
}

/// The paths to copy for a checked path (see `copy_plan`).
pub fn copy_sources(info: &CheckedPath) -> (r: Vec<String>)
    ensures
        r@.map_values(|s: String| s@) == copy_plan(*info),
{
    match info {
        CheckedPath::File(p) => {
            let mut out: Vec<String> = Vec::new();
            out.push(p.clone());
            proof {
                assert(out@.map_values(|s: String| s@) =~= seq![p@]);
            }
            out
        },
        CheckedPath::Dir { path, files } => {
            let mut out: Vec<String> = Vec::new();
            let mut i: usize = 0;
            while i < files.len()
                invariant
                    i <= files@.len(),
                    out@.len() == i,
                    forall|j: int|
                        #![trigger out@[j]]
                        0 <= j < i ==> out@[j]@ == path_join(path@, files@[j]@),
                decreases files@.len() - i,
            {
                let joined = join_path(path.as_str(), files[i].as_str());
                out.push(joined);
                i = i + 1;
            }
            proof {
                assert(out@.map_values(|s: String| s@) =~= files@.map_values(
                    |f: String| path_join(path@, f@),
                ));
            }
            out
        },
    }
}

/// Appending a relative component `rel` to a non-empty `base` keeps `base`
/// as it is, then exactly one separator, then `rel`: none is added when
/// `base` already ends with one.
pub proof fn lemma_join_relative(base: Seq<char>, rel: Seq<char>)
    requires
        base.len() > 0,
        !(rel.len() > 0 && rel[0] == '/'),
    ensures
        path_join(base, rel).subrange(0, base.len() as int) == base,
        base.last() != '/' ==> {
            &&& path_join(base, rel).len() == base.len() + 1 + rel.len()
            &&& path_join(base, rel)[base.len() as int] == '/'
            &&& path_join(base, rel).subrange(base.len() as int + 1, path_join(base, rel).len() as int) == rel
        },
        base.last() == '/' ==> {
            &&& path_join(base, rel).len() == base.len() + rel.len()
            &&& path_join(base, rel).subrange(base.len() as int, path_join(base, rel).len() as int) == rel
        },
{
    let r = path_join(base, rel);
    if base.last() != '/' {
        assert(r.subrange(0, base.len() as int) =~= base);
        assert(r.subrange(base.len() as int + 1, r.len() as int) =~= rel);
    } else {
        assert(r.subrange(0, base.len() as int) =~= base);
        assert(r.subrange(base.len() as int, r.len() as int) =~= rel);
    }
}

/// Appending to an empty path gives the component; appending an absolute
/// component gives that component.
pub proof fn lemma_join_empty_or_absolute(base: Seq<char>, rel: Seq<char>)
    ensures
        base.len() == 0 ==> path_join(base, rel) == rel,
        rel.len() > 0 && rel[0] == '/' ==> path_join(base, rel) == rel,
{
    assert(Seq::<char>::empty() + rel =~= rel);
}

/// For a directory, there is one path to copy per entry, in listing order,
/// each the entry appended to the directory's path; a file is copied alone.
pub proof fn lemma_copy_plan_per_entry(info: CheckedPath)
    ensures
        match info {
            CheckedPath::File(p) => copy_plan(info) == seq![p@],
            CheckedPath::Dir { path, files } => {
                &&& copy_plan(info).len() == files@.len()
                &&& forall|i: int|
                    0 <= i < files@.len() ==> #[trigger] copy_plan(info)[i] == path_join(path@, files@[i]@)
            },
        },
{
}

} // verus!
