pub mod category;
pub mod category_type;
pub mod cleaner;
pub mod coordinator;
pub mod fs_cleaner;
pub mod fs_scanner;
pub mod host;
pub mod item;
pub mod repositories;
pub mod scan_result;
pub mod scanner;
pub mod text;
pub mod use_cases;

pub use category::CleanableCategory;
pub use category_type::CategoryType;
pub use cleaner::Cleaner;
pub use coordinator::ExecutionCoordinator;
pub use fs_cleaner::FileSystemCleanerRepository;
pub use fs_scanner::FileSystemScannerRepository;
pub use item::CleanableItem;
pub use repositories::{CleanError, CleanerRepository, ScanError, ScannerRepository};
pub use scan_result::ScanResult;
pub use scanner::Scanner;
pub use use_cases::{CleanSelectedCategoriesUseCase, ScanSystemUseCase};
