//! Where a project, a workspace and the way to a file lie.

use vstd::prelude::*;

use crate::language::Language;
use crate::lsp;
use crate::paths;
use crate::runtime::requests;
use crate::tree;

verus! {

proof fn lemma_dirs(root: Seq<char>, names: Seq<Seq<char>>, n: int)
    requires
        0 <= n,
    ensures
        tree::dirs_between(root, names, n).len() == n,
        forall|i: int|
            0 < i < n ==> #[trigger] tree::dirs_between(root, names, n)[i] == paths::join(
                tree::dirs_between(root, names, n)[i - 1],
                names[i],
            ),
        n > 0 ==> tree::dirs_between(root, names, n)[0] == paths::join(root, names[0]),
    decreases n,
{
    if n > 0 {
        lemma_dirs(root, names, n - 1);
        let before = tree::dirs_between(root, names, n - 1);
        let now = tree::dirs_between(root, names, n);
        assert forall|i: int| 0 < i < n implies #[trigger] now[i] == paths::join(
            now[i - 1],
            names[i],
        ) by {
            if i < n - 1 {
                assert(now[i] == before[i]);
            }
            assert(now[i - 1] == before[i - 1]);
        }
    }
}

/// The directories on the way to a file: the first lies in the root, each other one in the
/// one before it, under the next name.
pub proof fn law_directories_on_the_way(root: Seq<char>, names: Seq<Seq<char>>, n: int, i: int)
    requires
        0 <= i < n,
    ensures
        ({
            let way = tree::dirs_between(root, names, n);
            &&& way.len() == n
            &&& way[0] == paths::join(root, names[0])
            &&& 0 < i ==> way[i] == paths::join(way[i - 1], names[i])
        }),
{
    lemma_dirs(root, names, n);
}

/// The root of a project is the nearest directory upwards that holds a repository, and else
/// where one starts; the workspace of a file is the nearest one upwards that holds a file by
/// which its language marks one, and else the directory of the file.
pub proof fn law_roots(start: Seq<char>, file: Seq<char>, existing: Seq<Seq<char>>)
    ensures
        tree::project_root(start, existing) == (match paths::nearest_marked(
            start,
            seq![".git"],
            existing,
        ) {
            Some(d) => d,
            None => start,
        }),
        paths::parent(file) matches Some(dir) ==> {
            &&& lsp::workspace_of(file, Language::Rust, existing) == (match paths::nearest_marked(
                dir,
                seq!["Cargo.toml"],
                existing,
            ) {
                Some(d) => d,
                None => dir,
            })
            &&& lsp::workspace_of(file, Language::Elm, existing) == (match paths::nearest_marked(
                dir,
                seq!["elm.json"],
                existing,
            ) {
                Some(d) => d,
                None => dir,
            })
            &&& lsp::workspace_of(file, Language::Scala, existing) == (match paths::nearest_marked(
                dir,
                seq!["build.sbt", "build.sc", "build.mill", "project/build.properties"],
                existing,
            ) {
                Some(d) => d,
                None => dir,
            })
        },
{
}

/// What is looked for is each mark in the directory, and then in each directory above it.
pub proof fn law_what_is_looked_for(dir: Seq<char>, markers: Seq<&'static str>, i: int)
    ensures
        ({
            let all = paths::probes(dir, markers);
            let n = markers.len() as int;
            &&& 0 <= i < n ==> all[i] == paths::join(dir, markers[i]@)
            &&& paths::parent(dir) is None ==> all.len() == n
            &&& paths::parent(dir) matches Some(p) ==> all.skip(n) == paths::probes(p, markers)
        }),
{
    if let Some(p) = paths::parent(dir) {
        let n = markers.len() as int;
        assert(paths::probes(dir, markers).skip(n) =~= paths::probes(p, markers));
    }
}

/// What is staged is the path that is asked for, or else the buffer's file, as seen from the
/// root of its repository.
pub proof fn law_what_is_staged(path: Seq<char>, root: Seq<char>, asked: Seq<char>)
    ensures
        requests::stage_path_of(path, root, Some(asked)) == asked,
        requests::stage_path_of(path, root, None) == paths::relative_to(path, root),
{
}

/// A row under the cursor is shown: the rows are moved no further than that takes, and not
/// at all where it is in sight already.
pub proof fn law_scrolled_rows(top: int, cursor: int, rows: int)
    requires
        0 < rows,
    ensures
        ({
            let t = tree::row_scrolled(top, cursor, rows);
            &&& t <= cursor < t + rows
            &&& top <= cursor < top + rows ==> t == top
            &&& cursor < top ==> t == cursor
            &&& cursor >= top + rows ==> t + rows == cursor + 1
        }),
{
}

} // verus!
