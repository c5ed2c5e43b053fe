use dyad::search::{
    filter_files, find_ignore_ascii_case, path_before, preview_line, FileWalk, Grep, TextHit,
    TEXT_SEARCH_MAX_FILE_BYTES, TEXT_SEARCH_MAX_HITS, TEXT_SEARCH_PREVIEW_CHARS, WALK_MAX_FILES,
};
use dyad::tree::DirItem;

#[test]
fn find_ignore_ascii_case_matches_mixed_case() {
    assert_eq!(find_ignore_ascii_case("Hello World", "world"), Some(6));
    assert_eq!(find_ignore_ascii_case("HELLO world", "hello"), Some(0));
    assert_eq!(find_ignore_ascii_case("nope", "yes"), None);
}

#[test]
fn preview_line_trims_and_caps() {
    assert_eq!(preview_line("    let x = 1;   "), "let x = 1;");
    let long: String = "a".repeat(TEXT_SEARCH_PREVIEW_CHARS + 50);
    let prev = preview_line(&long);
    assert_eq!(prev.chars().count(), TEXT_SEARCH_PREVIEW_CHARS);
}

/// A directory tree: each directory with the directories and files in it.
struct Disk {
    dirs: Vec<(&'static str, Vec<&'static str>, Vec<(&'static str, String)>)>,
}

impl Disk {
    fn items(&self, dir: &str) -> Vec<DirItem> {
        let mut items = Vec::new();
        for (name, dirs, files) in &self.dirs {
            if *name == dir {
                for d in dirs {
                    items.push(DirItem { name: d.to_string(), is_dir: true });
                }
                for (f, _) in files {
                    items.push(DirItem { name: f.to_string(), is_dir: false });
                }
            }
        }
        items
    }

    fn contents(&self, path: &str) -> String {
        for (name, _, files) in &self.dirs {
            for (f, text) in files {
                if format!("{name}/{f}") == path {
                    return text.clone();
                }
            }
        }
        panic!("no file {path}");
    }
}

fn grep_under_root(disk: &Disk, query: &str) -> (Vec<TextHit>, bool) {
    let mut grep = Grep::new("/root", query);
    while let Some(dir) = grep.walk.next_dir() {
        let items = disk.items(&dir);
        let files = grep.walk.visit(&dir, &items);
        for file in files {
            let contents = disk.contents(&file);
            grep.add_file(&file, contents.len() as u64, &contents);
        }
    }
    let capped = grep.capped();
    (grep.finish(), capped)
}

#[test]
fn grep_under_root_finds_hits_and_orders_by_path() {
    let disk = Disk {
        dirs: vec![
            (
                "/root",
                vec![".git", "target", "sub"],
                vec![
                    (".secret", "alpha".to_string()),
                    ("a.rs", "fn alpha() {}\nfn beta() {}\n".to_string()),
                ],
            ),
            (
                "/root/sub",
                vec![],
                vec![("b.rs", "// alpha lives here\nfn other() {}\n".to_string())],
            ),
            ("/root/.git", vec![], vec![("HEAD", "alpha".to_string())]),
            ("/root/target", vec![], vec![("junk.rs", "fn alpha() {}".to_string())]),
        ],
    };
    let (hits, capped) = grep_under_root(&disk, "alpha");
    assert!(!capped);
    let paths: Vec<String> = hits.iter().map(|h| h.path.clone()).collect();
    assert_eq!(paths, vec!["a.rs".to_string(), "sub/b.rs".to_string()]);
    assert_eq!(hits[0].line, 0);
    assert_eq!(hits[0].col, 3);
    assert!(hits[0].preview.contains("alpha"));
}

#[test]
fn grep_under_root_is_case_insensitive() {
    let disk = Disk {
        dirs: vec![("/root", vec![], vec![("a.rs", "Hello World\n".to_string())])],
    };
    let (hits, _) = grep_under_root(&disk, "WORLD");
    assert_eq!(hits.len(), 1);
    assert_eq!(hits[0].col, 6);
}

#[test]
fn grep_under_root_skips_files_over_size_cap() {
    let mut big = String::with_capacity(TEXT_SEARCH_MAX_FILE_BYTES as usize + 100);
    big.push_str("needle\n");
    big.push_str(&"x".repeat(TEXT_SEARCH_MAX_FILE_BYTES as usize + 50));
    let disk = Disk {
        dirs: vec![(
            "/root",
            vec![],
            vec![("big.bin", big), ("small.txt", "needle here\n".to_string())],
        )],
    };
    let (hits, _) = grep_under_root(&disk, "needle");
    let paths: Vec<String> = hits.iter().map(|h| h.path.clone()).collect();
    assert_eq!(paths, vec!["small.txt".to_string()]);
}

#[test]
fn walks_list_files_relative_to_the_root_in_order() {
    let disk = Disk {
        dirs: vec![
            ("/root", vec!["sub"], vec![("z.txt", String::new()), ("a.txt", String::new())]),
            ("/root/sub", vec![], vec![("m.txt", String::new())]),
        ],
    };
    let mut walk = FileWalk::new("/root");
    while let Some(dir) = walk.next_dir() {
        let items = disk.items(&dir);
        walk.visit(&dir, &items);
    }
    assert_eq!(walk.finish(), vec!["a.txt", "sub/m.txt", "z.txt"]);
}

#[test]
fn files_are_filtered_by_a_lower_cased_query() {
    let files = vec!["src/Main.rs".to_string(), "README.md".to_string(), "ÄRGER.txt".to_string()];
    assert_eq!(filter_files(&files, "main"), vec![0]);
    assert_eq!(filter_files(&files, ""), vec![0, 1, 2]);
    assert_eq!(filter_files(&files, "ärger"), vec![2]);
    assert_eq!(filter_files(&files, "zzz"), Vec::<usize>::new());
}

#[test]
fn paths_are_ordered_by_their_components() {
    assert!(path_before("a/b", "a/c"));
    assert!(path_before("a/z", "a.txt"));
    assert!(!path_before("b", "a"));
}

#[test]
fn walks_stop_at_the_most_files() {
    let items = |from: usize, to: usize| -> Vec<DirItem> {
        (from..to).map(|i| DirItem { name: format!("f{i:05}"), is_dir: false }).collect()
    };
    let mut walk = FileWalk::new("/root");
    assert_eq!(walk.next_dir().unwrap(), "/root");
    let mut listed = items(0, WALK_MAX_FILES - 1);
    listed.push(DirItem { name: "sub".to_string(), is_dir: true });
    walk.visit("/root", &listed);
    assert_eq!(walk.next_dir().unwrap(), "/root/sub");
    walk.visit("/root/sub", &items(0, 10));
    assert!(walk.next_dir().is_none());
    let found = walk.finish();
    assert_eq!(found.len(), WALK_MAX_FILES);
    assert!(found.windows(2).all(|w| path_before(&w[0], &w[1])));
}

#[test]
fn searches_list_the_first_hits_in_order() {
    let mut grep = Grep::new("/root", "hit");
    let contents = "a hit\nnothing\n".repeat(300);
    assert!(grep.looks_into(contents.len() as u64));
    grep.add_file("/root/z.txt", contents.len() as u64, &contents);
    assert!(!grep.capped());
    grep.add_file("/root/a.txt", contents.len() as u64, &contents);
    assert!(grep.capped());
    assert!(!grep.looks_into(1));
    grep.add_file("/root/0.txt", 4, "hit\n");
    let hits = grep.finish();
    assert_eq!(hits.len(), TEXT_SEARCH_MAX_HITS);
    let first: Vec<&TextHit> = hits.iter().filter(|h| h.path == "a.txt").collect();
    assert_eq!(first.len(), 200);
    assert!(hits[..200].iter().all(|h| h.path == "a.txt"));
    assert_eq!((hits[199].line, hits[199].col), (398, 2));
    assert_eq!((hits[200].path.as_str(), hits[200].line), ("z.txt", 0));
    assert_eq!((hits[499].path.as_str(), hits[499].line), ("z.txt", 598));
}

#[test]
fn files_that_are_too_large_are_not_looked_into() {
    let grep = Grep::new("/root", "x");
    assert!(grep.looks_into(TEXT_SEARCH_MAX_FILE_BYTES));
    assert!(!grep.looks_into(TEXT_SEARCH_MAX_FILE_BYTES + 1));
    assert!(!Grep::new("/root", "").looks_into(1));
}

#[test]
fn walks_visit_every_directory_they_come_upon() {
    let disk = Disk {
        dirs: vec![
            ("/root", vec!["a", "b", ".hidden"], vec![("top", String::new())]),
            ("/root/a", vec!["c"], vec![("in_a", String::new())]),
            ("/root/a/c", vec![], vec![("in_c", String::new())]),
            ("/root/b", vec![], vec![("in_b", String::new())]),
            ("/root/.hidden", vec![], vec![("secret", String::new())]),
        ],
    };
    let mut walk = FileWalk::new("/root");
    let mut visited = Vec::new();
    while let Some(dir) = walk.next_dir() {
        walk.visit(&dir, &disk.items(&dir));
        visited.push(dir);
    }
    assert_eq!(visited, vec!["/root", "/root/b", "/root/a", "/root/a/c"]);
    assert_eq!(walk.finish(), vec!["a/c/in_c", "a/in_a", "b/in_b", "top"]);
}
