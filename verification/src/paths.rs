//! Path text handling: joining relative paths under the store and reading
//! file names, all over plain character sequences.

use vstd::prelude::*;
use vstd::string::{StrSliceExecFns, StringExecFns};

verus! {

/// Two path segments joined with a separator.
pub open spec fn joined(a: Seq<char>, b: Seq<char>) -> Seq<char> {
    a + "/"@ + b
}

/// Joins two path segments with a separator.
pub fn join_path(a: &str, b: &str) -> (r: String)
    ensures
        r@ == joined(a@, b@),
{
    let mut s = a.to_owned();
    s.append("/");
    s.append(b);
    s
}

/// The text after the last separator: the file name of a path, or the
/// whole path when it has no separator.
pub open spec fn file_name_chars(s: Seq<char>) -> Seq<char>
    decreases s.len(),
{
    if s.len() == 0 {
        s
    } else if s.last() == '/' {
        Seq::empty()
    } else {
        file_name_chars(s.drop_last()).push(s.last())
    }
}

proof fn lemma_file_name_no_slash(s: Seq<char>)
    requires
        forall|j: int| 0 <= j < s.len() ==> s[j] != '/',
    ensures
        file_name_chars(s) == s,
    decreases s.len(),
{
    if s.len() > 0 {
        lemma_file_name_no_slash(s.drop_last());
        assert(file_name_chars(s) =~= s);
    } else {
        assert(file_name_chars(s) =~= s);
    }
}

proof fn lemma_file_name_after_slash(s: Seq<char>, k: int)
    requires
        0 <= k < s.len(),
        s[k] == '/',
        forall|j: int| k < j < s.len() ==> s[j] != '/',
    ensures
        file_name_chars(s) == s.skip(k + 1),
    decreases s.len(),
{
    if k == s.len() - 1 {
        assert(file_name_chars(s) =~= s.skip(k + 1));
    } else {
        lemma_file_name_after_slash(s.drop_last(), k);
        assert(s.drop_last().skip(k + 1) =~= s.skip(k + 1).drop_last());
        assert(file_name_chars(s) =~= s.skip(k + 1));
    }
}

/// The file name of a path: the text after its last separator.
pub fn file_name_of(path: &str) -> (r: String)
    ensures
        r@ == file_name_chars(path@),
{
    let n = path.unicode_len();
    let mut last_slash: Option<usize> = None;
    let mut i: usize = 0;
    while i < n
        invariant
            n == path@.len(),
            i <= n,
            match last_slash {
                Some(k) => {
                    &&& k < i
                    &&& path@[k as int] == '/'
                    &&& forall|j: int| k < j < i ==> path@[j] != '/'
                },
                None => forall|j: int| 0 <= j < i ==> path@[j] != '/',
            },
        decreases n - i,
    {
        if path.get_char(i) == '/' {
            last_slash = Some(i);
        }
        i = i + 1;
    }
    match last_slash {
        Some(k) => {
            let tail = path.substring_char(k + 1, n);
            proof {
                lemma_file_name_after_slash(path@, k as int);
                assert(path@.subrange(k + 1, n as int) =~= path@.skip(k + 1));
            }
            tail.to_owned()
        },
        None => {
            proof {
                lemma_file_name_no_slash(path@);
            }
            path.to_owned()
        },
    }
}

/// The application's directory layout, derived from the user's home and
/// configuration roots.
#[derive(Debug)]
pub struct AppDirs {
    pub user_dir: String,
    pub config_dir: String,
    pub data_dir: String,
    pub entries_dir: String,
    pub index_file: String,
    pub journal_file: String,
    pub config_file: String,
}

impl AppDirs {
    /// The layout under the given home and configuration roots: data and
    /// entries under a hidden stash directory, one document file each for
    /// the index and the journal.
    pub fn from_roots(user_dir: String, config_root: String) -> (r: AppDirs)
        ensures
            r.user_dir@ == user_dir@,
            r.config_dir@ == joined(config_root@, "stash"@),
            r.data_dir@ == joined(user_dir@, ".stash"@),
            r.entries_dir@ == joined(joined(user_dir@, ".stash"@), "entries"@),
            r.index_file@ == joined(joined(user_dir@, ".stash"@), "index.json"@),
            r.journal_file@ == joined(joined(user_dir@, ".stash"@), "journal.log"@),
            r.config_file@ == joined(joined(config_root@, "stash"@), "config.toml"@),
    {
        let config_dir = join_path(config_root.as_str(), "stash");
        let data_dir = join_path(user_dir.as_str(), ".stash");
        let entries_dir = join_path(data_dir.as_str(), "entries");
        let index_file = join_path(data_dir.as_str(), "index.json");
        let journal_file = join_path(data_dir.as_str(), "journal.log");
        let config_file = join_path(config_dir.as_str(), "config.toml");
        AppDirs {
            user_dir,
            config_dir,
            data_dir,
            entries_dir,
            index_file,
            journal_file,
            config_file,
        }
    }
}

/// The longest shared prefix of two component sequences.
pub open spec fn common_prefix_len(a: Seq<Seq<char>>, b: Seq<Seq<char>>) -> int
    decreases a.len(),
{
    if a.len() == 0 || b.len() == 0 || a[0] != b[0] {
        0
    } else {
        1 + common_prefix_len(a.drop_first(), b.drop_first())
    }
}

/// How many leading components two paths share.
fn common_len(a: &Vec<String>, b: &Vec<String>) -> (k: usize)
    ensures
        k <= a@.len(),
        k <= b@.len(),
        forall|j: int| 0 <= j < k ==> #[trigger] a@[j]@ == b@[j]@,
        k < a@.len() && k < b@.len() ==> a@[k as int]@ != b@[k as int]@,
{
    let mut k: usize = 0;
    while k < a.len() && k < b.len()
        invariant
            k <= a@.len(),
            k <= b@.len(),
            forall|j: int| 0 <= j < k ==> #[trigger] a@[j]@ == b@[j]@,
        decreases a@.len() - k,
    {
        if !crate::text::str_eq(a[k].as_str(), b[k].as_str()) {
            return k;
        }
        k = k + 1;
    }
    k
}

/// The component sequence shared by every extracted path: each path is cut
/// to the components it shares with the running prefix.
pub fn common_root(paths: &Vec<Vec<String>>) -> (r: Vec<String>)
    ensures
        paths@.len() == 0 ==> r@.len() == 0,
        paths@.len() > 0 ==> strs_eq(r@, fold_common(paths@)),
{
    let mut r: Vec<String> = Vec::new();
    if paths.len() == 0 {
        return r;
    }
    let mut i: usize = 0;
    while i < paths[0].len()
        invariant
            paths@.len() > 0,
            i <= paths@[0]@.len(),
            r@.len() == i,
            forall|k: int| 0 <= k < i ==> #[trigger] r@[k]@ == paths@[0]@[k]@,
        decreases paths@[0]@.len() - i,
    {
        r.push(paths[0][i].clone());
        i = i + 1;
    }
    proof {
        assert(paths@.take(1).len() == 1);
        assert(paths@.take(1)[0] == paths@[0]);
        assert(r@.map_values(|x: String| x@) =~= fold_common(paths@.take(1)));
    }
    let mut p: usize = 1;
    while p < paths.len()
        invariant
            paths@.len() > 0,
            1 <= p <= paths@.len(),
            strs_eq(r@, fold_common(paths@.take(p as int))),
        decreases paths@.len() - p,
    {
        let keep = common_len(&r, &paths[p]);
        proof {
            assert(paths@.take(p + 1).drop_last() =~= paths@.take(p as int));
            assert(paths@.take(p + 1).last() == paths@[p as int]);
            lemma_truncate_is_common(
                r@.map_values(|s: String| s@),
                paths@[p as int]@.map_values(|s: String| s@),
                keep as int,
            );
        }
        let ghost pre = r@;
        r.truncate(keep);
        p = p + 1;
        proof {
            assert(r@.map_values(|s: String| s@) =~= pre.map_values(|s: String| s@).take(
                keep as int,
            ));
            assert(strs_eq(r@, fold_common(paths@.take(p as int))));
        }
    }
    proof {
        assert(paths@.take(paths@.len() as int) =~= paths@);
    }
    r
}

/// Whether a vector of strings reads as the given character sequences.
pub open spec fn strs_eq(v: Seq<String>, s: Seq<Seq<char>>) -> bool {
    v.map_values(|x: String| x@) == s
}

/// The shared prefix folded over all extracted paths, starting from the
/// first path's components.
pub open spec fn fold_common(paths: Seq<Vec<String>>) -> Seq<Seq<char>>
    decreases paths.len(),
{
    if paths.len() == 0 {
        Seq::empty()
    } else if paths.len() == 1 {
        paths[0]@.map_values(|x: String| x@)
    } else {
        let front = fold_common(paths.drop_last());
        let other = paths.last()@.map_values(|x: String| x@);
        front.take(common_prefix_len(front, other))
    }
}

proof fn lemma_truncate_is_common(a: Seq<Seq<char>>, b: Seq<Seq<char>>, keep: int)
    requires
        0 <= keep <= a.len(),
        keep <= b.len(),
        forall|k: int| 0 <= k < keep ==> a[k] == b[k],
        keep < a.len() && keep < b.len() ==> a[keep] != b[keep],
    ensures
        a.take(keep) == a.take(common_prefix_len(a, b)),
        common_prefix_len(a, b) == keep,
    decreases keep,
{
    if keep == 0 {
        if a.len() > 0 && b.len() > 0 && a[0] == b[0] {
            assert(false);
        }
    } else {
        let a2 = a.drop_first();
        let b2 = b.drop_first();
        assert(forall|k: int| 0 <= k < keep - 1 ==> a2[k] == b2[k]);
        lemma_truncate_is_common(a2, b2, keep - 1);
        assert(a.take(keep) =~= a.take(common_prefix_len(a, b)));
    }
}

} // verus!
