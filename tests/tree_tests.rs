use prettytable::tree::provide_prefix;

#[test]
fn test_() {
    let items = vec!["1/2", "1/2/3", "1/2/3/4", "1/2/5", "6", "7", "7/8", "7/9"];

    let prefixes = provide_prefix(&items, |parent, item| {
        let pi = item.split("/");
        let pp = parent.split("/");
        (pi.count() == pp.count() + 1) && item.starts_with(parent)
    });

    let mut actual = String::new();
    prefixes
        .iter()
        .zip(items)
        .for_each(|(p, i)| actual.push_str(&format!("{} {}\n", p, i)));

    let expected = r#" 1/2
 ├─ 1/2/3
 │  └─ 1/2/3/4
 └─ 1/2/5
 6
 7
 ├─ 7/8
 └─ 7/9
"#;
    assert_eq!(actual, expected);
}

#[test]
fn tree_prefixes_of_paths() {
    let items = vec!["1", "1/2", "1/2/3", "1/4", "5", "5/6"];
    let prefixes = provide_prefix(&items, |parent, item| {
        parent.split('/').count() + 1 == item.split('/').count() && item.starts_with(parent)
    });
    assert_eq!(prefixes, vec!["", " ├─", " │  └─", " └─", "", " └─"]);
}

#[test]
fn tree_of_no_items() {
    let items: Vec<u32> = vec![];
    assert!(provide_prefix(&items, |_p, _i| true).is_empty());
}

#[test]
fn tree_chain_and_roots() {
    let items = vec![0u32, 1, 2, 3];
    let chain = provide_prefix(&items, |p, i| *p + 1 == *i);
    assert_eq!(chain, vec!["", " └─", "    └─", "       └─"]);
    let roots = provide_prefix(&items, |_p, _i| false);
    assert_eq!(roots, vec!["", "", "", ""]);
}
