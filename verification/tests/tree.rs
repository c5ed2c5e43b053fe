use dyad::tree::{
    dirs_on_the_way, project_root_for, tree_from, Activation, DirItem, FileTree, Listing,
};

const ROOT: &str = "/tmp/dyad_tree_test";

fn file(name: &str) -> DirItem {
    DirItem { name: name.to_string(), is_dir: false }
}

fn dir(name: &str) -> DirItem {
    DirItem { name: name.to_string(), is_dir: true }
}

fn top_items() -> Vec<DirItem> {
    vec![file("b.txt"), file(".hidden"), dir("nested"), file("a.txt")]
}

fn nested_items() -> Vec<DirItem> {
    vec![file("c.txt")]
}

fn make_tree() -> FileTree {
    FileTree::new(ROOT.to_string(), &top_items())
}

fn listings() -> Vec<Listing> {
    vec![
        Listing { dir: ROOT.to_string(), items: top_items() },
        Listing { dir: format!("{ROOT}/nested"), items: nested_items() },
    ]
}

#[test]
fn new_lists_top_level_entries_with_parent_link() {
    let tree = make_tree();
    assert!(tree.entries.first().unwrap().is_parent_link);
    let visible: Vec<&str> = tree
        .entries
        .iter()
        .filter(|e| !e.is_parent_link)
        .map(|e| e.name.as_str())
        .collect();
    assert_eq!(visible, vec!["nested", "a.txt", "b.txt"]);
}

#[test]
fn move_up_and_down_clamp_at_boundaries() {
    let mut tree = make_tree();
    let last = tree.entries.len() - 1;

    tree.move_up();
    assert_eq!(tree.cursor, 0);

    for _ in 0..tree.entries.len() + 5 {
        tree.move_down();
    }
    assert_eq!(tree.cursor, last);

    for _ in 0..tree.entries.len() + 5 {
        tree.move_up();
    }
    assert_eq!(tree.cursor, 0);
}

#[test]
fn activate_on_file_yields_open() {
    let mut tree = make_tree();
    let idx = tree
        .entries
        .iter()
        .position(|e| !e.is_parent_link && e.name == "a.txt")
        .unwrap();
    tree.cursor = idx;
    match tree.activate(&vec![]) {
        Activation::Open(path) => {
            assert_eq!(path, format!("{ROOT}/a.txt"));
        }
        _ => panic!("expected Activation::Open"),
    }
}

#[test]
fn activate_on_directory_toggles_expansion() {
    let mut tree = make_tree();
    let idx = tree
        .entries
        .iter()
        .position(|e| !e.is_parent_link && e.is_dir && e.name == "nested")
        .unwrap();
    tree.cursor = idx;
    let before = tree.entries.len();
    assert_eq!(tree.dir_to_expand(), Some(format!("{ROOT}/nested")));
    match tree.activate(&nested_items()) {
        Activation::Nothing => {}
        _ => panic!("expected Activation::Nothing when toggling expand"),
    }
    assert!(tree.entries[idx].expanded);
    assert!(tree.entries.len() > before);
    assert_eq!(tree.dir_to_expand(), None);
    tree.activate(&vec![]);
    assert!(!tree.entries[idx].expanded);
    assert_eq!(tree.entries.len(), before);
}

#[test]
fn activate_on_parent_link_returns_ascend() {
    let mut tree = make_tree();
    tree.cursor = 0;
    match tree.activate(&vec![]) {
        Activation::Ascend => {}
        _ => panic!("expected Activation::Ascend"),
    }
}

#[test]
fn reveal_returns_false_for_path_outside_root() {
    let mut tree = make_tree();
    assert!(!tree.reveal_path("/tmp/dyad_tree_outside_other.txt", &listings()));
}

#[test]
fn reveal_expands_path_and_positions_cursor() {
    let mut tree = make_tree();
    let nested_file = format!("{ROOT}/nested/c.txt");
    assert_eq!(dirs_on_the_way(ROOT, &nested_file), vec![format!("{ROOT}/nested")]);
    assert!(tree.reveal_path(&nested_file, &listings()));
    let entry = &tree.entries[tree.cursor];
    assert_eq!(entry.name, "c.txt");
    assert_eq!(entry.depth, 1);
}

#[test]
fn scroll_into_view_brings_cursor_into_viewport() {
    let mut tree = make_tree();
    tree.cursor = tree.entries.len() - 1;
    tree.scroll_into_view(2);
    assert!(tree.top >= tree.cursor + 1 - 2);
    tree.cursor = 0;
    tree.scroll_into_view(2);
    assert_eq!(tree.top, 0);
}

#[test]
fn scroll_into_view_zero_viewport_is_noop() {
    let mut tree = make_tree();
    let original_top = tree.top;
    tree.cursor = 99;
    tree.scroll_into_view(0);
    assert_eq!(tree.top, original_top);
}

#[test]
fn ascend_resets_to_parent_directory() {
    let mut tree = make_tree();
    tree.ascend(&vec![dir("dyad_tree_test")]);
    assert_eq!(tree.root, "/tmp");
    assert_eq!(tree.cursor, 0);
    assert_eq!(tree.entries[1].name, "dyad_tree_test");
}

#[test]
fn project_root_for_finds_git_dir() {
    let parent = "/tmp/dyad_tree_proj";
    let existing = vec![format!("{parent}/.git")];
    let resolved = project_root_for(&format!("{parent}/src"), &existing);
    assert_eq!(resolved, parent);
    assert_eq!(project_root_for("/tmp/elsewhere/src", &vec![]), "/tmp/elsewhere/src");
}

#[test]
fn collapsing_takes_all_that_is_below() {
    let mut tree = make_tree();
    let before: Vec<String> = tree.entries.iter().map(|e| e.path.clone()).collect();
    tree.cursor = 1;
    tree.activate(&vec![dir("deep"), file("c.txt")]);
    tree.cursor = 2;
    tree.activate(&vec![file("d.txt")]);
    assert_eq!(tree.entries[3].depth, 2);
    tree.cursor = 1;
    tree.activate(&vec![]);
    let after: Vec<String> = tree.entries.iter().map(|e| e.path.clone()).collect();
    assert_eq!(after, before);
}

#[test]
fn a_tree_is_made_anew_from_listings() {
    let tree = tree_from(ROOT.to_string(), &listings());
    assert_eq!(tree.entries.len(), 4);
    assert!(!tree.focused);
    assert!(tree.entries.iter().all(|e| !e.expanded));
}
