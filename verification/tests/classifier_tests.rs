use name_exchange::types::GetPathInfo;
use name_exchange::types::MetadataCollection;

fn info(path: &str, is_file: bool) -> MetadataCollection {
    GetPathInfo::get_info(path, is_file)
}

#[test]
fn file_metadata_splits_name_extension_and_parent() {
    let m = info("/tmp/a.txt", true);
    assert_eq!(m.name, "a");
    assert_eq!(m.ext, ".txt");
    assert_eq!(m.parent_dir, "/tmp");
}

#[test]
fn directory_keeps_its_dotted_name_whole() {
    let m = info("/data/d.e", false);
    assert_eq!(m.name, "d.e");
    assert_eq!(m.ext, "");
    assert_eq!(m.parent_dir, "/data");
}

#[test]
fn hidden_file_with_single_leading_dot_has_no_extension() {
    let m = info("/x/.config", true);
    assert_eq!(m.name, ".config");
    assert_eq!(m.ext, "");
}

#[test]
fn trailing_dot_is_an_empty_extension() {
    let m = info("/x/foo.", true);
    assert_eq!(m.name, "foo");
    assert_eq!(m.ext, ".");
}

#[test]
fn extension_splits_at_the_last_dot() {
    let m = info("/x/a.b.c", true);
    assert_eq!(m.name, "a.b");
    assert_eq!(m.ext, ".c");
}

#[test]
fn entry_directly_under_root_has_root_parent() {
    let m = info("/a", true);
    assert_eq!(m.name, "a");
    assert_eq!(m.parent_dir, "/");
}

#[test]
fn root_level_directory_metadata() {
    let m = info("/data", false);
    assert_eq!(m.name, "data");
    assert_eq!(m.ext, "");
    assert_eq!(m.parent_dir, "/");
}

#[test]
fn the_root_itself_has_no_parent() {
    let m = info("/", false);
    assert_eq!(m.parent_dir, "");
    let g = GetPathInfo {
        path1: "/".to_string(),
        path2: "/a".to_string(),
        is_file1: false,
        is_file2: true,
    };
    assert!(!g.if_same_dir());
}

#[test]
fn path_without_separator_is_its_own_name() {
    let m = info("abc", true);
    assert_eq!(m.name, "abc");
    assert_eq!(m.parent_dir, "");
}

#[test]
fn metadata_collect_covers_both_paths() {
    let g = GetPathInfo {
        path1: "/tmp/a.txt".to_string(),
        path2: "/data/d.e".to_string(),
        is_file1: true,
        is_file2: false,
    };
    let (m1, m2) = g.metadata_collect(true, false);
    assert_eq!(m1.name, "a");
    assert_eq!(m1.ext, ".txt");
    assert_eq!(m2.name, "d.e");
    assert_eq!(m2.ext, "");
}

#[test]
fn if_file_reports_the_stat_flags() {
    let g = GetPathInfo {
        path1: "/a".to_string(),
        path2: "/b".to_string(),
        is_file1: true,
        is_file2: false,
    };
    assert_eq!(g.if_file(), (true, false));
}

#[test]
fn same_parent_directory_is_recognised() {
    let g = GetPathInfo {
        path1: "/tmp/a.txt".to_string(),
        path2: "/tmp/b.md".to_string(),
        is_file1: true,
        is_file2: true,
    };
    assert!(g.if_same_dir());
    let h = GetPathInfo {
        path1: "/x/a".to_string(),
        path2: "/y/a".to_string(),
        is_file1: true,
        is_file2: true,
    };
    assert!(!h.if_same_dir());
}

#[test]
fn containment_needs_a_component_boundary() {
    assert!(GetPathInfo::path_is_parent("/data", "/data/child.txt"));
    assert!(!GetPathInfo::path_is_parent("/data", "/database"));
    assert!(!GetPathInfo::path_is_parent("/data", "/data"));
    assert!(GetPathInfo::path_is_parent("/", "/a"));
    assert!(GetPathInfo::path_is_parent("/data", "/data/a/b"));
    assert!(!GetPathInfo::path_is_parent("/data/a/b", "/data"));
}

#[test]
fn relationship_mode_orders_the_two_paths() {
    let nested = GetPathInfo {
        path1: "/data".to_string(),
        path2: "/data/child.txt".to_string(),
        is_file1: false,
        is_file2: true,
    };
    assert_eq!(nested.if_root(), 1);
    let reversed = GetPathInfo {
        path1: "/data/child.txt".to_string(),
        path2: "/data".to_string(),
        is_file1: true,
        is_file2: false,
    };
    assert_eq!(reversed.if_root(), 2);
    let unrelated = GetPathInfo {
        path1: "/data".to_string(),
        path2: "/else".to_string(),
        is_file1: false,
        is_file2: false,
    };
    assert_eq!(unrelated.if_root(), 0);
}

#[test]
fn default_values_are_empty() {
    let m = MetadataCollection::default();
    assert_eq!((m.name.as_str(), m.ext.as_str(), m.parent_dir.as_str()), ("", "", ""));
    let p = name_exchange::types::PrepareName::default();
    assert_eq!(p.original_path, "");
    assert_eq!(p.new_path, "");
    assert_eq!(p.pre_path, "");
    let f = name_exchange::types::FileInfos::default();
    assert!(!f.is_exist);
    assert!(!f.is_file);
    let g = GetPathInfo::default();
    assert_eq!(g.path1, "");
    assert!(!g.is_file2);
}

#[test]
fn find_last_reports_the_last_occurrence() {
    assert_eq!(GetPathInfo::get_info("/a/b/c", false).parent_dir, "/a/b");
    assert_eq!(name_exchange::path_text::find_last("/a/b/c", '/'), Some(4));
    assert_eq!(name_exchange::path_text::find_last("abc", '/'), None);
}
