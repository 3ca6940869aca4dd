//! A malware detection engine: YARA signature sets, a scanner that unpacks
//! archives before matching, and the results it reports.

pub mod errors;
pub mod file_type;
pub mod scan_result;
pub mod scanner;
pub mod signature;

pub use errors::Error;
pub use file_type::{ArchiveKind, FileType};
pub use scan_result::{Detection, ScanResult};
pub use scanner::Scanner;
pub use signature::{DirEntryAction, SigSet, Signature};
