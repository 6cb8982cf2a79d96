use std::sync::Arc;

use pc_clean::fs_scanner::{
    cache_paths, directory_size, image_item, image_items, image_size, listed, log_items, log_roots,
    or_sentinel, package_dirs, project_roots, sized_items, temp_items, temp_roots, volume_items,
    MAX_TEMP_FILES,
};
use pc_clean::host::{EntryKind, HostSystem, ToolOutput, WalkEntry};
use pc_clean::text::{contains_str, file_name, nonblank_lines, parse_u64, trimmed};
use pc_clean::{
    CategoryType, CleanableCategory, CleanableItem, FileSystemScannerRepository, ScanError,
    ScanResult, ScanSystemUseCase, Scanner, ScannerRepository,
};

struct MockScannerRepository;

impl ScannerRepository for MockScannerRepository {
    fn scan_system(&self) -> Result<ScanResult, ScanError> {
        let mut result = ScanResult::new();
        result.add_category(CleanableCategory::new("Test".to_string()));
        Ok(result)
    }

    fn scan_category(&self, _category_type: CategoryType) -> Result<Vec<CleanableItem>, ScanError> {
        Ok(Vec::new())
    }
}

#[test]
fn should_execute_scan() {
    let repo = Arc::new(MockScannerRepository);
    let use_case = ScanSystemUseCase::new(repo);

    let result = use_case.execute();
    assert!(result.is_ok());
}

fn file(path: &str, size: u64) -> WalkEntry {
    WalkEntry { path: path.to_string(), kind: EntryKind::File, size: Some(size) }
}

fn dir(path: &str) -> WalkEntry {
    WalkEntry { path: path.to_string(), kind: EntryKind::Directory, size: Some(4096) }
}

/// A host with a small fixed disk and container tool.
struct FixedHost;

impl HostSystem for FixedHost {
    fn home_dir(&self) -> String {
        "/home/u".to_string()
    }
    fn walk(&self, root: &str, _max_depth: usize) -> Vec<WalkEntry> {
        match root {
            "/var/log" => vec![dir("/var/log"), file("/var/log/syslog.log", 500), file("/var/log/empty.log", 0)],
            "/tmp" => vec![file("/tmp/x.txt", 7)],
            "/home/u/Projects" => vec![dir("/home/u/Projects/app/node_modules")],
            "/home/u/Projects/app/node_modules" => vec![file("/home/u/Projects/app/node_modules/a.js", 30)],
            _ => Vec::new(),
        }
    }
    fn path_kind(&self, path: &str) -> EntryKind {
        if path.ends_with("node_modules") { EntryKind::Directory } else { EntryKind::Other }
    }
    fn remove_file(&self, _path: &str) -> bool {
        false
    }
    fn remove_dir_all(&self, _path: &str) -> bool {
        false
    }
    fn run_tool(&self, _program: &str, args: &[&str]) -> Option<ToolOutput> {
        match args[0] {
            "images" => Some(ToolOutput { success: true, stdout: "sha256:0123456789abcdef\n\n".to_string() }),
            "inspect" => Some(ToolOutput { success: true, stdout: "2048\n".to_string() }),
            _ => None,
        }
    }
}

#[test]
fn full_scan_gives_one_category_per_kind_in_order() {
    let repo = FileSystemScannerRepository::new(FixedHost);
    let result = repo.scan_system().unwrap();
    let names: Vec<&str> = result.categories().iter().map(|c| c.name()).collect();
    let expected: Vec<&str> = CategoryType::all().iter().map(|t| t.display_name()).collect();
    assert_eq!(names, expected);
    let logs = &result.categories()[0];
    assert_eq!(logs.item_count(), 1);
    assert_eq!(logs.items()[0].path(), "/var/log/syslog.log");
    assert_eq!(result.categories()[1].item_count(), 1);
    let images = &result.categories()[2];
    assert_eq!(images.item_count(), 1);
    assert_eq!(images.items()[0].path(), "Docker Image: sha256:01234");
    assert_eq!(images.total_size(), 2048);
    assert!(result.categories()[3].is_empty());
    let packages = &result.categories()[4];
    assert_eq!(packages.item_count(), 1);
    assert_eq!(packages.total_size(), 30);
    assert_eq!(result.total_size(), 500 + 7 + 2048 + 30);
}

#[test]
fn scanner_runs_every_kind() {
    let scanner = Scanner::new(FileSystemScannerRepository::new(FixedHost));
    let result = scanner.scan_all().unwrap();
    assert_eq!(result.categories().len(), 5);
    assert_eq!(result.total_items(), 4);
    let empty = Scanner::new(MockScannerRepository).scan_all().unwrap();
    assert_eq!(empty.categories().len(), 5);
    assert!(!empty.has_items());
}

#[test]
fn log_files_are_recognised() {
    assert!(FileSystemScannerRepository::<FixedHost>::is_log_file("/var/log/app.log"));
    assert!(FileSystemScannerRepository::<FixedHost>::is_log_file("/var/log/APP.LOG"));
    assert!(FileSystemScannerRepository::<FixedHost>::is_log_file("/var/log/app.log.1"));
    assert!(!FileSystemScannerRepository::<FixedHost>::is_log_file("/var/log/.LOG"));
    assert!(!FileSystemScannerRepository::<FixedHost>::is_log_file("/var/log/syslog"));
    assert!(!FileSystemScannerRepository::<FixedHost>::is_log_file("/tmp/catalog"));
}

#[test]
fn log_items_keep_nonempty_log_files() {
    let entries = vec![
        file("/a.log", 10),
        file("/b.txt", 10),
        file("/c.log", 0),
        dir("/d.log"),
        WalkEntry { path: "/e.log".to_string(), kind: EntryKind::File, size: None },
        file("/f.LOG", 3),
    ];
    let items = log_items(&entries);
    let paths: Vec<&str> = items.iter().map(|i| i.path()).collect();
    assert_eq!(paths, vec!["/a.log", "/f.LOG"]);
}

#[test]
fn temp_scan_looks_at_most_at_the_cap() {
    let mut entries = vec![dir("/tmp")];
    for i in 0..150 {
        entries.push(file(&format!("/tmp/f{}", i), if i == 3 { 0 } else { 1 }));
    }
    let items = temp_items(&entries, MAX_TEMP_FILES);
    assert_eq!(MAX_TEMP_FILES, 100);
    assert_eq!(items.len(), 99);
    assert_eq!(items.last().unwrap().path(), "/tmp/f99");
    assert_eq!(temp_items(&entries[..5], 100).len(), 3);
}

#[test]
fn package_dirs_match_name_and_cap() {
    let mut entries = vec![dir("/p/node_modules_old"), file("/p/node_modules", 1)];
    for i in 0..25 {
        entries.push(dir(&format!("/p/{}/node_modules", i)));
    }
    let dirs = package_dirs(&entries, 20);
    assert_eq!(dirs.len(), 20);
    assert_eq!(dirs[0], "/p/0/node_modules");
}

#[test]
fn directory_size_sums_files_only() {
    let entries = vec![dir("/d"), file("/d/a", 5), file("/d/b", 6), WalkEntry {
        path: "/d/c".to_string(),
        kind: EntryKind::File,
        size: None,
    }];
    assert_eq!(directory_size(&entries), 11);
    assert_eq!(directory_size(&[file("/x", u64::MAX), file("/y", 1)]), u64::MAX);
}

#[test]
fn tool_listings_are_split_into_names() {
    let out = Some(ToolOutput { success: true, stdout: " vol1 \r\n\nvol2\n".to_string() });
    assert_eq!(listed(&out), vec!["vol1".to_string(), "vol2".to_string()]);
    let failed = Some(ToolOutput { success: false, stdout: "vol1\n".to_string() });
    assert!(listed(&failed).is_empty());
    assert!(listed(&None).is_empty());
    let items = volume_items(&out);
    assert_eq!(items.len(), 2);
    assert_eq!(items[0].path(), "Docker Volume: vol1");
    assert_eq!(items[1].size_in_bytes(), 100_000_000);
}

#[test]
fn image_size_and_label() {
    let out = Some(ToolOutput { success: true, stdout: " 12345\n".to_string() });
    assert_eq!(image_size(&out), 12345);
    let bad = Some(ToolOutput { success: true, stdout: "n/a".to_string() });
    assert_eq!(image_size(&bad), 0);
    assert_eq!(image_size(&None), 0);
    let item = image_item("sha256:abcdefabcdef0000", 7);
    assert_eq!(item.path(), "Docker Image: sha256:abcde");
    assert_eq!(image_item("abc", 1).path(), "Docker Image: abc");
}

#[test]
fn sentinel_only_when_nothing_found() {
    let r = or_sentinel(Vec::new(), "nothing here");
    assert_eq!(r.len(), 1);
    assert_eq!(r[0].path(), "nothing here");
    assert_eq!(r[0].size_in_bytes(), 0);
    let mut c = CleanableCategory::new("Docker".to_string());
    for i in r {
        c.add_item(i);
    }
    assert!(c.is_empty());
    let found = vec![CleanableItem::new("x".to_string(), 1)];
    assert_eq!(or_sentinel(found, "nothing here")[0].path(), "x");
}

#[test]
fn text_helpers() {
    assert_eq!(parse_u64("42"), Some(42));
    assert_eq!(parse_u64("+42"), Some(42));
    assert_eq!(parse_u64("+"), None);
    assert_eq!(parse_u64(""), None);
    assert_eq!(parse_u64("4 2"), None);
    assert_eq!(parse_u64("18446744073709551615"), Some(u64::MAX));
    assert_eq!(parse_u64("18446744073709551616"), None);
    assert_eq!(nonblank_lines("a\n  b c \r\n\n"), vec!["a".to_string(), "b c".to_string()]);
    assert!(nonblank_lines(" \n\t").is_empty());
    assert_eq!(trimmed("\u{3000} x y \n"), "x y");
    assert_eq!(file_name("/a/b/c.log"), "c.log");
    assert_eq!(file_name("plain"), "plain");
    assert_eq!(file_name("/a/"), "");
    assert!(contains_str("🐳 Imagens Docker", "Docker"));
    assert!(!contains_str("Doc", "Docker"));
    assert!(contains_str("abc", ""));
}

#[test]
fn image_items_keep_nonzero_sizes_in_order() {
    let ids = vec!["sha256:aaaaaaaaaaaaaaaa".to_string(), "b".to_string(), "c".to_string()];
    let items = image_items(&ids, &vec![10, 0, 30]);
    let paths: Vec<&str> = items.iter().map(|i| i.path()).collect();
    assert_eq!(paths, vec!["Docker Image: sha256:aaaaa", "Docker Image: c"]);
    assert_eq!(items[1].size_in_bytes(), 30);
}

#[test]
fn sized_items_drop_zero_sizes() {
    let paths = vec!["/a".to_string(), "/b".to_string()];
    let items = sized_items(&paths, &vec![0, 9]);
    assert_eq!(items, vec![CleanableItem::new("/b".to_string(), 9)]);
}

#[test]
fn fixed_roots() {
    assert_eq!(log_roots("/h"), vec!["/var/log", "/tmp", "/h/Library/Logs"]);
    assert_eq!(temp_roots("/h"), vec!["/tmp", "/var/tmp", "/h/Library/Caches"]);
    assert_eq!(project_roots("/h"), vec!["/h/Projects", "/h/Documents", "/h/Desktop"]);
    assert_eq!(cache_paths("/h"), vec!["/h/.npm", "/h/.cargo/registry"]);
}

#[test]
fn scan_category_gives_each_kind_its_items() {
    let repo = FileSystemScannerRepository::new(FixedHost);
    let logs = repo.scan_category(CategoryType::LogFiles).unwrap();
    assert_eq!(logs.len(), 1);
    let volumes = repo.scan_category(CategoryType::DockerVolumes).unwrap();
    assert_eq!(volumes.len(), 1);
    assert_eq!(volumes[0].size_in_bytes(), 0);
    assert_eq!(volumes[0].path(), "Nenhum volume Docker não utilizado encontrado");
}
