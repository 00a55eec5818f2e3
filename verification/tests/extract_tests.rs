use rusty_spire::extract::is_malformed_path;
use rusty_spire::extract::components;
use rusty_spire::extract::should_extract;
use rusty_spire::extract::DirTree;
use rusty_spire::extract::Stats;
use rusty_spire::pck::PckFileFlags;
use rusty_spire::pck::PckFileMetadata;

fn file(path: &str, size: u64, flags: u32) -> PckFileMetadata {
    PckFileMetadata {
        path: path.to_string(),
        offset: 0,
        size,
        md5: [0; 16],
        flags: PckFileFlags::from_bits_retain(flags),
    }
}

#[test]
fn extraction_skips_encrypted_removed_and_delta_files() {
    assert!(should_extract(&file("a", 3, 0)));
    assert!(!should_extract(&file("a", 3, PckFileFlags::ENCRYPTED)));
    assert!(!should_extract(&file("a", 3, PckFileFlags::REMOVAL)));
    assert!(!should_extract(&file("a", 3, PckFileFlags::DELTA)));
    assert!(should_extract(&file("a", 3, 8)));
}

#[test]
fn stats_count_flags_sizes_and_extensions() {
    let mut s = Stats::new();
    s.register(&file("res://a/b.png", 0, PckFileFlags::ENCRYPTED));
    s.register(&file("res://c.txt", 1, PckFileFlags::REMOVAL | PckFileFlags::DELTA));
    s.register(&file("res://d.png", 5, 0));
    s.register(&file("res://noext", 9, 0));
    assert_eq!(s.total, 4);
    assert_eq!(s.encrypted, 1);
    assert_eq!(s.removals, 1);
    assert_eq!(s.delta, 1);
    assert_eq!(s.empty, 1);
    assert_eq!(s.size_one_or_less, 2);
    assert_eq!(
        s.extensions,
        vec![("png".to_string(), 2), ("txt".to_string(), 1), ("".to_string(), 1)]
    );
}

#[test]
fn stats_with_given_extension() {
    let mut s = Stats::new();
    s.register_with_extension(&file("x", 2, 0), "tres");
    s.register_with_extension(&file("y", 2, 0), "tres");
    assert_eq!(s.extensions, vec![("tres".to_string(), 2)]);
    assert_eq!(s.total, 2);
}

#[test]
fn path_components_drop_empty_dot_and_res_prefix() {
    assert_eq!(components("res://a/./b//c.png"), vec!["a", "b", "c.png"]);
    assert_eq!(components("a/b"), vec!["a", "b"]);
    assert_eq!(components("/x/res:/y"), vec!["x", "res:", "y"]);
    assert_eq!(components(""), Vec::<String>::new());
    assert_eq!(components("res://"), Vec::<String>::new());
    assert_eq!(components("./.."), vec![".."]);
}

#[test]
fn dir_tree_sizes_add_up_along_the_path() {
    let mut t = DirTree::new();
    t.add_entry(file("res://a/b/c.png", 10, 0));
    t.add_entry(file("res://a/d.png", 5, 0));
    t.add_entry(file("res://", 100, 0));
    assert_eq!(t.size(), 15);
    let text = format!("{t:?}");
    assert!(text.contains("\"c.png\""));
    assert!(text.contains("\"d.png\""));
}

#[test]
fn extension_report_orders_by_count_then_small_letters() {
    let mut s = Stats::new();
    s.register_with_extension(&file("a", 2, 0), "png");
    s.register_with_extension(&file("b", 2, 0), "TXT");
    s.register_with_extension(&file("c", 2, 0), "b");
    s.register_with_extension(&file("d", 2, 0), "TXT");
    s.register_with_extension(&file("e", 2, 0), "TXT");
    s.register_with_extension(&file("f", 2, 0), "Ctex");
    s.register_with_extension(&file("g", 2, 0), "Ctex");
    s.register_with_extension(&file("h", 2, 0), "png");
    s.register_with_extension(&file("i", 2, 0), "");
    assert_eq!(
        s.into_extension_report(),
        vec![
            ("TXT".to_string(), 3),
            ("Ctex".to_string(), 2),
            ("png".to_string(), 2),
            ("".to_string(), 1),
            ("b".to_string(), 1),
        ]
    );
}

#[test]
fn extension_report_compares_extensions_in_small_letters() {
    let mut s = Stats::new();
    s.register_with_extension(&file("a", 2, 0), "PNG");
    s.register_with_extension(&file("b", 2, 0), "b");
    // "PNG" sorts before "b" by bytes, "png" after it
    assert_eq!(
        s.into_extension_report(),
        vec![("b".to_string(), 1), ("PNG".to_string(), 1)]
    );
}

#[test]
fn extension_counts_add_up_to_the_total() {
    let mut s = Stats::new();
    for p in ["res://a.png", "res://b.png", "res://c", "res://d.tres", "res://e.PNG"] {
        s.register(&file(p, 1, 0));
    }
    let sum: usize = s.extensions.iter().map(|(_, n)| *n).sum();
    assert_eq!(sum, s.total);
    let mut names: Vec<&String> = s.extensions.iter().map(|(e, _)| e).collect();
    names.sort();
    names.dedup();
    assert_eq!(names.len(), s.extensions.len());
}

#[test]
fn registered_extension_follows_the_last_component() {
    let mut s = Stats::new();
    for p in [
        "res://a/b.tar.gz",
        "res://a/.hidden",
        "res://a/b.",
        "res://dir.d/",
        "res://a/..",
        "res://x/./y.tres/.",
    ] {
        s.register(&file(p, 1, 0));
    }
    assert_eq!(
        s.extensions,
        vec![("gz".to_string(), 1), ("".to_string(), 3), ("d".to_string(), 1), ("tres".to_string(), 1)]
    );
}

#[test]
fn dir_tree_sizes_grow_on_every_directory_of_the_path() {
    let mut t = DirTree::new();
    t.add_entry(file("res://a/b/c.png", 10, 0));
    t.add_entry(file("res://a/d.png", 5, 0));
    t.add_entry(file("res://e/f.png", 1, 0));
    assert_eq!(t.size(), 16);
    let text = format!("{t:?}");
    // directory `a` holds 15 bytes, `a/b` 10, `e` 1
    assert!(text.contains("size: 15"));
    assert!(text.contains("size: 10"));
    assert!(text.contains("size: 1 }"));
}

#[test]
fn malformed_paths_have_a_component_that_is_not_a_name() {
    assert!(!is_malformed_path("a/b.png"));
    assert!(!is_malformed_path("a/./b//c"));
    assert!(!is_malformed_path("res:/a"));
    assert!(is_malformed_path("/a"));
    assert!(is_malformed_path("./a"));
    assert!(is_malformed_path("a/../b"));
    assert!(is_malformed_path(".."));
}

#[test]
fn has_extension_reads_the_last_component() {
    assert!(rusty_spire::extract::has_extension("res://a/b.ctex", "ctex"));
    assert!(!rusty_spire::extract::has_extension("res://a/b.ctex.import", "ctex"));
    assert!(!rusty_spire::extract::has_extension("res://a.ctex/b", "ctex"));
    assert!(rusty_spire::extract::has_extension("res://a/b", ""));
}
