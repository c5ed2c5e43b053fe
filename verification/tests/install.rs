use dyad::install::{install_dir, install_target, plan, report, Found, Plan};

#[test]
fn what_is_there_decides_what_is_done() {
    let target = install_target("/home/me");
    assert_eq!(target, "/home/me/.local/bin/dyad");
    match plan(&target, Found::Directory) {
        Plan::Refuse(why) => assert_eq!(
            why,
            "refusing to overwrite /home/me/.local/bin/dyad: it is a directory"
        ),
        other => panic!("expected a refusal, got {other:?}"),
    }
    match plan(&target, Found::File { running: true }) {
        Plan::Done(said) => {
            assert_eq!(said, "dyad is already installed at /home/me/.local/bin/dyad");
        }
        other => panic!("expected nothing to do, got {other:?}"),
    }
    assert!(matches!(
        plan(&target, Found::File { running: false }),
        Plan::Copy { replace: true }
    ));
    assert!(matches!(plan(&target, Found::Symlink), Plan::Copy { replace: true }));
    assert!(matches!(plan(&target, Found::Nothing), Plan::Copy { replace: false }));
}

#[test]
fn a_hint_follows_where_the_path_lacks_the_directory() {
    let dir = install_dir("/home/me");
    let there = report("/t", "/s", &dir, true);
    assert_eq!(there, vec!["Installed dyad to /t", "  copied from /s"]);
    let hinted = report("/t", "/s", &dir, false);
    assert_eq!(hinted.len(), 6);
    assert_eq!(hinted[3], "Note: /home/me/.local/bin is not on your PATH.");
}
