use snaprepl::text::{has_prefix, has_suffix, snapshot_label, snapshot_pool, str_lt};

#[test]
fn label_follows_last_separator() {
    assert_eq!(snapshot_label("tank/data@repl_2022_05_22_12_09_46"), "repl_2022_05_22_12_09_46");
    assert_eq!(snapshot_label("a@b@c"), "c");
    assert_eq!(snapshot_label("plain"), "plain");
    assert_eq!(snapshot_label("tank@"), "");
    assert_eq!(snapshot_label(""), "");
}

#[test]
fn pool_precedes_first_separator() {
    assert_eq!(snapshot_pool("tank/data@repl_2022"), "tank/data");
    assert_eq!(snapshot_pool("a@b@c"), "a");
    assert_eq!(snapshot_pool("plain"), "plain");
    assert_eq!(snapshot_pool("@x"), "");
}

#[test]
fn prefix_and_suffix() {
    assert!(has_prefix("repl_2022", "repl_"));
    assert!(!has_prefix("auto_2022", "repl_"));
    assert!(has_prefix("x", ""));
    assert!(!has_prefix("re", "repl_"));
    assert!(has_suffix("backup/tank@repl_1", "tank@repl_1"));
    assert!(!has_suffix("tank@repl_1", "backup/tank@repl_1"));
    assert!(has_suffix("x", ""));
}

#[test]
fn order_is_that_of_str() {
    let names = ["", "a", "ab", "b", "auto_2022_01_01", "auto_2022_01_02", "é", "z"];
    for a in names.iter() {
        for b in names.iter() {
            assert_eq!(str_lt(a, b), a < b);
        }
    }
}
