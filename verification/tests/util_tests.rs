use walkdir::WalkDir;
use xcp::errors::{result_or_errno, CopyError};
use xcp::fileutil::is_hidden;
use xcp::fileutil::{empty, hidden_name, FileType, FsFileType, ToFileType};
use xcp::sparse::{allocate_file, next_sparse_segments, probably_sparse};

#[test]
fn result_or_errno_success() {
    assert_eq!(result_or_errno(0, 42u64), Ok(42));
    assert_eq!(result_or_errno(17, "payload"), Ok("payload"));
}

#[test]
fn result_or_errno_failure() {
    let r: Result<u64, CopyError> = result_or_errno(-1, 9);
    assert!(matches!(r, Err(CopyError::Os(_))));
}

#[test]
fn fallback_probably_sparse_false() {
    assert_eq!(probably_sparse(), Ok(false));
}

#[test]
fn fallback_allocate_file_unsupported() {
    assert_eq!(allocate_file(0), Err(CopyError::Unsupported));
    assert_eq!(allocate_file(1 << 40), Err(CopyError::Unsupported));
}

#[test]
fn fallback_next_sparse_segments_unsupported() {
    assert_eq!(next_sparse_segments(0), Err(CopyError::Unsupported));
    assert_eq!(next_sparse_segments(123456), Err(CopyError::Unsupported));
}

#[test]
fn file_type_classification() {
    let dir = FsFileType { is_dir: true, is_file: false, is_symlink: false };
    let file = FsFileType { is_dir: false, is_file: true, is_symlink: false };
    let link = FsFileType { is_dir: false, is_file: false, is_symlink: true };
    let other = FsFileType { is_dir: false, is_file: false, is_symlink: false };
    assert_eq!(dir.to_enum(), FileType::Dir);
    assert_eq!(file.to_enum(), FileType::File);
    assert_eq!(link.to_enum(), FileType::Symlink);
    assert_eq!(other.to_enum(), FileType::Unknown);
}

#[test]
fn file_type_precedence() {
    let all = FsFileType { is_dir: true, is_file: true, is_symlink: true };
    assert_eq!(all.to_enum(), FileType::Dir);
    let file_link = FsFileType { is_dir: false, is_file: true, is_symlink: true };
    assert_eq!(file_link.to_enum(), FileType::File);
}

#[test]
fn empty_path_detection() {
    assert!(empty(""));
    assert!(!empty("/"));
    assert!(!empty("a/b.txt"));
}

#[test]
fn is_hidden_matches_leading_dot() {
    let mut seen: usize = 0;
    for entry in WalkDir::new(".").max_depth(2) {
        let entry = match entry {
            Ok(e) => e,
            Err(_) => continue,
        };
        let expected = entry
            .file_name()
            .to_str()
            .map(|s| s.starts_with('.'))
            .unwrap_or(false);
        assert_eq!(is_hidden(&entry), expected);
        seen += 1;
        if seen >= 50 {
            break;
        }
    }
    assert!(seen > 0);
}

#[test]
fn hidden_name_detection() {
    assert!(hidden_name(".git"));
    assert!(hidden_name("."));
    assert!(!hidden_name("git"));
    assert!(!hidden_name(""));
    assert!(!hidden_name("dir.name"));
}
