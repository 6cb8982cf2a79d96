use std::cell::RefCell;
use std::sync::Arc;

use pc_clean::cleaner::{
    can_clean_category, clean_categories, plan_cleanup, total_cleaned, CategoryOutcome,
};
use pc_clean::fs_cleaner::{count_removed, removal_for, units_pruned, CleanupStrategy, Removal};
use pc_clean::host::{
    image_list_args, image_size_args, prune_args, volume_list_args, EntryKind, HostSystem,
    ToolOutput, WalkEntry,
};
use pc_clean::{
    CleanError, CleanSelectedCategoriesUseCase, CleanableCategory, CleanableItem, Cleaner,
    CleanerRepository, FileSystemCleanerRepository, ScanResult,
};

struct MockCleanerRepository;

impl CleanerRepository for MockCleanerRepository {
    fn clean_category(&self, _category: &CleanableCategory) -> Result<usize, CleanError> {
        Ok(5)
    }

    fn can_clean(&self, _category: &CleanableCategory) -> bool {
        true
    }
}

/// Counts the categories handed to it and gives a fixed answer.
struct CountingRepository {
    calls: RefCell<Vec<String>>,
    answer: Result<usize, CleanError>,
}

impl CountingRepository {
    fn new(answer: Result<usize, CleanError>) -> Self {
        CountingRepository { calls: RefCell::new(Vec::new()), answer }
    }
}

impl CleanerRepository for CountingRepository {
    fn clean_category(&self, category: &CleanableCategory) -> Result<usize, CleanError> {
        self.calls.borrow_mut().push(category.name().to_string());
        self.answer.clone()
    }

    fn can_clean(&self, _category: &CleanableCategory) -> bool {
        true
    }
}

/// A host where every path is of one kind, and which records what is asked of it.
struct RecordingHost {
    kind: EntryKind,
    removed: RefCell<Vec<String>>,
    runs: RefCell<Vec<Vec<String>>>,
    tool_success: Option<bool>,
}

impl RecordingHost {
    fn new(kind: EntryKind, tool_success: Option<bool>) -> Self {
        RecordingHost {
            kind,
            removed: RefCell::new(Vec::new()),
            runs: RefCell::new(Vec::new()),
            tool_success,
        }
    }
}

impl HostSystem for RecordingHost {
    fn home_dir(&self) -> String {
        String::new()
    }
    fn walk(&self, _root: &str, _max_depth: usize) -> Vec<WalkEntry> {
        Vec::new()
    }
    fn path_kind(&self, _path: &str) -> EntryKind {
        self.kind
    }
    fn remove_file(&self, path: &str) -> bool {
        self.removed.borrow_mut().push(format!("file:{}", path));
        true
    }
    fn remove_dir_all(&self, path: &str) -> bool {
        self.removed.borrow_mut().push(format!("dir:{}", path));
        true
    }
    fn run_tool(&self, program: &str, args: &[&str]) -> Option<ToolOutput> {
        let mut call = vec![program.to_string()];
        call.extend(args.iter().map(|a| a.to_string()));
        self.runs.borrow_mut().push(call);
        self.tool_success.map(|success| ToolOutput { success, stdout: String::new() })
    }
}

fn category(name: &str, sizes: &[u64]) -> CleanableCategory {
    let mut c = CleanableCategory::new(name.to_string());
    for (i, s) in sizes.iter().enumerate() {
        c.add_item(CleanableItem::new(format!("/tmp/{}/{}", name, i), *s));
    }
    c
}

fn result_of(categories: Vec<CleanableCategory>) -> ScanResult {
    let mut r = ScanResult::new();
    for c in categories {
        r.add_category(c);
    }
    r
}

#[test]
fn should_clean_selected_categories() {
    let repo = Arc::new(MockCleanerRepository);
    let use_case = CleanSelectedCategoriesUseCase::new(repo);

    let mut result = ScanResult::new();
    let mut cat = CleanableCategory::new("Test".to_string());
    cat.add_item(CleanableItem::new("/tmp/test.log".to_string(), 1024));
    result.add_category(cat);

    let cleaned = use_case.execute(&result, &[0]).unwrap();
    assert_eq!(cleaned, 5);
}

#[test]
fn should_identify_docker_strategy() {
    let repo = FileSystemCleanerRepository::new(RecordingHost::new(EntryKind::Other, None));
    assert_eq!(
        repo.get_cleanup_strategy("🐳 Imagens Docker"),
        CleanupStrategy::DockerImages
    );
}

#[test]
fn should_validate_cleanable_category() {
    let repo = FileSystemCleanerRepository::new(RecordingHost::new(EntryKind::Other, None));
    let mut category = CleanableCategory::new("Test".to_string());

    assert!(!repo.can_clean(&category)); // Empty category

    category.add_item(CleanableItem::new("/tmp/test".to_string(), 100));
    assert!(repo.can_clean(&category)); // Non-empty category
}

#[test]
fn empty_selection_cleans_nothing() {
    let repo = CountingRepository::new(Ok(3));
    let cleaner = Cleaner::new(repo);
    let result = result_of(vec![category("Logs", &[10, 20])]);
    assert_eq!(cleaner.clean_selected(&result, &[]), Ok(0));
    let repo = CountingRepository::new(Ok(3));
    let result = result_of(vec![category("Logs", &[10])]);
    let outcomes = clean_categories(&repo, &result, &[]).unwrap();
    assert!(outcomes.is_empty());
    assert!(repo.calls.borrow().is_empty());
}

#[test]
fn out_of_range_index_refuses_whole_batch() {
    let repo = CountingRepository::new(Ok(3));
    let result = result_of(vec![category("Logs", &[10]), category("Temp", &[5])]);
    let r = clean_categories(&repo, &result, &[0, 1, 7, 9]);
    assert!(matches!(r, Err(CleanError::InvalidIndex(7))));
    assert!(repo.calls.borrow().is_empty());
    let cleaner = Cleaner::new(CountingRepository::new(Ok(3)));
    assert_eq!(cleaner.clean_selected(&result, &[2]), Err(CleanError::InvalidIndex(2)));
}

#[test]
fn empty_category_is_skipped() {
    let repo = CountingRepository::new(Ok(3));
    let result = result_of(vec![category("Logs", &[]), category("Temp", &[5])]);
    let outcomes = clean_categories(&repo, &result, &[0]).unwrap();
    assert!(outcomes.is_empty());
    assert!(repo.calls.borrow().is_empty());
    assert_eq!(Cleaner::new(CountingRepository::new(Ok(3))).clean_selected(&result, &[0, 1]), Ok(3));
}

#[test]
fn category_without_name_is_skipped() {
    let repo = CountingRepository::new(Ok(4));
    let result = result_of(vec![category("", &[10])]);
    assert!(!can_clean_category(&result.categories()[0]));
    assert_eq!(Cleaner::new(repo).clean_selected(&result, &[0]), Ok(0));
}

#[test]
fn plan_keeps_selection_order_and_repeats() {
    let result = result_of(vec![category("A", &[1]), category("B", &[]), category("C", &[2])]);
    assert_eq!(plan_cleanup(&result, &[2, 1, 0, 2]).unwrap(), vec![2, 0, 2]);
    assert_eq!(plan_cleanup(&result, &[0, 3]), Err(CleanError::InvalidIndex(3)));
}

#[test]
fn mock_repository_counts_add_up() {
    let repo = Arc::new(MockCleanerRepository);
    let use_case = CleanSelectedCategoriesUseCase::new(repo);
    let result = result_of(vec![category("Logs", &[1024]), category("Temp", &[2048])]);
    assert_eq!(use_case.execute(&result, &[0, 1]), Ok(10));
}

#[test]
fn failing_category_does_not_stop_the_others() {
    let failing = CountingRepository::new(Err(CleanError::StrategyFailed("boom".to_string())));
    let result = result_of(vec![category("A", &[1]), category("B", &[2])]);
    let outcomes = clean_categories(&failing, &result, &[0, 1]).unwrap();
    assert_eq!(outcomes.len(), 2);
    assert_eq!(failing.calls.borrow().len(), 2);
    assert_eq!(total_cleaned(&outcomes), 0);
    let mixed = vec![
        CategoryOutcome { index: 0, result: Ok(4) },
        CategoryOutcome { index: 1, result: Err(CleanError::StrategyFailed("x".to_string())) },
        CategoryOutcome { index: 2, result: Ok(6) },
    ];
    assert_eq!(total_cleaned(&mixed), 10);
    let huge = vec![
        CategoryOutcome { index: 0, result: Ok(usize::MAX) },
        CategoryOutcome { index: 1, result: Ok(1) },
    ];
    assert_eq!(total_cleaned(&huge), usize::MAX);
}

#[test]
fn vanished_paths_clean_nothing() {
    let host = RecordingHost::new(EntryKind::Other, Some(true));
    let repo = FileSystemCleanerRepository::new(host);
    let result = result_of(vec![category("📄 Arquivos de Log", &[10, 20, 30])]);
    let use_case = CleanSelectedCategoriesUseCase::new(Arc::new(repo));
    assert_eq!(use_case.execute(&result, &[0]), Ok(0));
}

#[test]
fn filesystem_strategy_removes_files_and_directories() {
    let files = FileSystemCleanerRepository::new(RecordingHost::new(EntryKind::File, None));
    let c = category("Temp", &[1, 2]);
    assert_eq!(files.clean_category(&c), Ok(2));
    let dirs = FileSystemCleanerRepository::new(RecordingHost::new(EntryKind::Directory, None));
    assert_eq!(dirs.clean_category(&c), Ok(2));
}

#[test]
fn docker_images_category_goes_to_image_prune() {
    let host = RecordingHost::new(EntryKind::File, Some(true));
    let repo = FileSystemCleanerRepository::new(host);
    let mut c = CleanableCategory::new("🐳 Imagens Docker".to_string());
    c.add_item(CleanableItem::new("/etc/passwd".to_string(), 100));
    assert_eq!(repo.clean_category(&c), Ok(1));
    let cleaner = Cleaner::new(repo);
    let result = result_of(vec![c]);
    assert_eq!(cleaner.clean_selected(&result, &[0]), Ok(1));
}

#[test]
fn docker_strategy_never_deletes_paths() {
    let host = RecordingHost::new(EntryKind::File, Some(true));
    let mut c = CleanableCategory::new("🐳 Imagens Docker".to_string());
    c.add_item(CleanableItem::new("/etc/passwd".to_string(), 100));
    let repo = FileSystemCleanerRepository::new(host);
    repo.clean_category(&c).unwrap();
    let mut v = CleanableCategory::new("💾 Volumes Docker".to_string());
    v.add_item(CleanableItem::new("/etc/hosts".to_string(), 100));
    repo.clean_category(&v).unwrap();
    let host = repo_host_runs(&repo);
    assert_eq!(host.0, vec![
        vec!["docker".to_string(), "image".to_string(), "prune".to_string(), "-f".to_string()],
        vec!["docker".to_string(), "volume".to_string(), "prune".to_string(), "-f".to_string()],
    ]);
    assert!(host.1.is_empty());
}

fn repo_host_runs(repo: &FileSystemCleanerRepository<RecordingHost>) -> (Vec<Vec<String>>, Vec<String>) {
    let host = repo.host();
    (host.runs.borrow().clone(), host.removed.borrow().clone())
}

#[test]
fn strategy_selection_by_name() {
    let repo = FileSystemCleanerRepository::new(RecordingHost::new(EntryKind::Other, None));
    assert_eq!(repo.get_cleanup_strategy("💾 Volumes Docker"), CleanupStrategy::DockerVolumes);
    assert_eq!(repo.get_cleanup_strategy("📄 Arquivos de Log"), CleanupStrategy::FileSystem);
    assert_eq!(repo.get_cleanup_strategy("Imagens"), CleanupStrategy::FileSystem);
    assert_eq!(repo.get_cleanup_strategy("docker imagens"), CleanupStrategy::FileSystem);
}

#[test]
fn prune_failure_counts_nothing() {
    let failed = FileSystemCleanerRepository::new(RecordingHost::new(EntryKind::Other, Some(false)));
    let c = category("💾 Volumes Docker", &[1]);
    assert_eq!(failed.clean_category(&c), Ok(0));
    let missing = FileSystemCleanerRepository::new(RecordingHost::new(EntryKind::Other, None));
    assert_eq!(missing.clean_category(&c), Ok(0));
    assert_eq!(units_pruned(&Some(ToolOutput { success: true, stdout: "x".to_string() })), 1);
    assert_eq!(units_pruned(&None), 0);
}

#[test]
fn removal_depends_on_path_kind() {
    assert_eq!(removal_for(EntryKind::File), Some(Removal::DeleteFile));
    assert_eq!(removal_for(EntryKind::Directory), Some(Removal::DeleteTree));
    assert_eq!(removal_for(EntryKind::Other), None);
}

#[test]
fn count_removed_counts_what_went() {
    assert_eq!(count_removed(&[true, false, true, true]), 3);
    assert_eq!(count_removed(&[]), 0);
    assert_eq!(count_removed(&[false, false]), 0);
}

#[test]
fn can_clean_is_the_safety_check() {
    let repo = FileSystemCleanerRepository::new(RecordingHost::new(EntryKind::Other, None));
    assert!(!repo.can_clean(&category("", &[5])));
    assert!(!repo.can_clean(&category("Logs", &[])));
    assert!(repo.can_clean(&category("Logs", &[5])));
}

#[test]
fn cloned_category_and_result_keep_their_items() {
    let c = category("Logs", &[3, 0, 4]);
    let copy = c.clone();
    assert_eq!(copy.name(), "Logs");
    assert_eq!(copy.items(), c.items());
    let r = result_of(vec![c]);
    assert_eq!(r.clone().total_size(), 7);
}

#[test]
fn tool_argument_lists() {
    assert_eq!(image_list_args(), vec!["images", "--filter", "dangling=true", "-q", "--no-trunc"]);
    assert_eq!(image_size_args("abc"), vec!["inspect", "-f", "{{.Size}}", "abc"]);
    assert_eq!(volume_list_args(), vec!["volume", "ls", "-qf", "dangling=true"]);
    assert_eq!(prune_args("image"), vec!["image", "prune", "-f"]);
}
