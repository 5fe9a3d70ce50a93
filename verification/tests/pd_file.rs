use pixiv_downloader::downloader::pd_file::enums::PdFilePartStatus as PdFilePartStatus2;
use pixiv_downloader::downloader::pd_file::enums::{PdFileStatus, PdFileType};
use pixiv_downloader::downloader::pd_file::error::PdFileError;
use pixiv_downloader::downloader::pd_file::file::{count_parts, PdFile, PdFileResult};
use pixiv_downloader::downloader::pd_file::part_status::{OutOfBoundsError, PdFilePartStatus};
use pixiv_downloader::downloader::pd_file::version::PdFileVersion;

#[test]
fn test_pd_file_version() {
    assert!(PdFileVersion::new(1, 0) != PdFileVersion::new(0, 1));
    assert!(PdFileVersion::new(1, 10) != PdFileVersion::new(11, 0));
    assert!(PdFileVersion::new(1, 10) == PdFileVersion::new(1, 10));
    assert!(PdFileVersion::from_bytes(&vec![1, 10], 0).unwrap() == PdFileVersion::new(1, 10));
    assert_eq!(PdFileVersion::new(1, 10).to_bytes(), vec![1, 10]);
    assert!(PdFileVersion::new(2, 1) > PdFileVersion::new(1, 3));
    assert!(PdFileVersion::new(1, 3) > PdFileVersion::new(1, 2));
    assert!(PdFileVersion::new(3, 2) >= PdFileVersion::new(3, 2));
    assert!(PdFileVersion::new(1, 4) < PdFileVersion::new(1, 11));
    assert!(PdFileVersion::new(1, 3) < PdFileVersion::new(2, 1));
    assert!(PdFileVersion::new(1, 2) == [1u8, 2]);
    assert!(PdFileVersion::new(1, 3) == vec![1u8, 3, 2]);
    assert!(PdFileVersion::new(1, 2) == [1, 2, 3]);
    assert!(PdFileVersion::new(1, 3) == vec![1, 3, 2]);
    assert!(PdFileVersion::new(1, 2) != [1]);
    assert!(PdFileVersion::new(2, 3) > [1, 10]);
    assert!(PdFileVersion::new(3, 1) < [10, 1]);
    assert!(PdFileVersion::new(3, 3) >= [3, 3]);
    assert!(!(PdFileVersion::new(2, 3) > [1]))
}

#[test]
fn test_enums() {
    assert_eq!(PdFileStatus::Downloading.int_value().to_le_bytes(), [1]);
    assert_eq!(PdFileType::MultiThread.int_value().to_le_bytes(), [1]);
    assert_eq!(PdFilePartStatus2::Downloaded.int_value().to_le_bytes(), [2]);
}

#[test]
fn test_part_status() {
    let mut status = PdFilePartStatus::new();
    assert_eq!(status.to_bytes().len(), 4);
    assert_eq!(status.status(), PdFilePartStatus2::Waited);
    assert_eq!(status.is_waited(), true);
    status = PdFilePartStatus::from_bytes(&[132u8, 23, 3, 2], 0).unwrap();
    assert_eq!(status.is_downloaded(), true);
    assert_eq!(status.downloaded_size(), 0x80c5c4);
    assert_eq!(status.to_bytes(), vec![132, 23, 3, 2]);
    status.set_downloaded_size(0x323133).unwrap();
    assert_eq!(status.downloaded_size(), 0x323133);
    assert_eq!(status.to_bytes(), vec![179, 196, 200, 0]);
    assert_eq!(status.retry_count(), 0);
    status.set_retry_count(3);
    assert_eq!(status.retry_count(), 3);
}

#[test]
fn test_version_support_and_bytes() {
    assert!(PdFileVersion::new(1, 0).is_supported());
    assert!(PdFileVersion::new(0, 9).is_supported());
    assert!(!PdFileVersion::new(1, 1).is_supported());
    assert!(PdFileVersion::from_bytes(&[1u8], 0).is_err());
    assert!(PdFileVersion::from_bytes(&[7u8, 1, 2], 1).unwrap() == PdFileVersion::new(1, 2));
    let mut out = vec![9u8];
    PdFileVersion::new(4, 5).write_to(&mut out);
    assert_eq!(out, vec![9, 4, 5]);
}

#[test]
fn test_enum_numbers() {
    assert_eq!(PdFileStatus::from_int(2), Some(PdFileStatus::Downloaded));
    assert_eq!(PdFileStatus::from_int(3), None);
    assert_eq!(PdFileType::from_int(0), Some(PdFileType::SingleThread));
    assert_eq!(PdFileType::from_int(2), None);
    assert_eq!(PdFilePartStatus2::from_int(1), Some(PdFilePartStatus2::Downloading));
    assert_eq!(PdFilePartStatus2::from_int(5), None);
    assert!(PdFileType::MultiThread.is_multi());
    assert!(PdFileStatus::Started.is_started());
    assert!(!PdFileStatus::Started.is_downloading());
    assert!(PdFileStatus::Downloaded.is_completed());
}

#[test]
fn test_part_status_errors() {
    let mut status = PdFilePartStatus::new();
    match status.set_downloaded_size(0x4000_0000) {
        Err(PdFileError::String(_)) => {}
        _ => panic!("a size of 2^30 is out of bounds"),
    }
    assert_eq!(status.downloaded_size(), 0);
    assert!(PdFilePartStatus::from_bytes(&[1u8, 2, 3], 0).is_err());
    assert!(matches!(
        PdFilePartStatus::from_bytes(&[1u8, 2, 3, 4, 5], 2),
        Err(PdFileError::String(m)) if m == "At least 4 bytes is needed."
    ));
    assert!(PdFilePartStatus::from_bytes(&[0xc0u8, 0, 0, 0], 0).is_err());
    let e = OutOfBoundsError::new("u32", 5u32);
    assert_eq!(e.message(), "Failed to set type u32 with value 5");
}

#[test]
fn test_pd_file_bytes_roundtrip() {
    let mut f = PdFile::new();
    f.set_file_name("a.png").unwrap();
    f.set_file_size(100);
    f.inc(40);
    let b = f.to_bytes().unwrap();
    let g = PdFile::from_bytes(&b).unwrap();
    assert_eq!(g.get_file_size(), 100);
    assert_eq!(g.get_downloaded_file_size(), 40);
    assert!(g.is_downloading());
    assert_eq!(g.get_file_name().unwrap(), "a.png");
    assert_eq!(g.to_bytes().unwrap(), b);
}

#[test]
fn test_pd_file() {
    let mut f = PdFile::new();
    f.set_file_name("a").unwrap();
    assert_eq!(f.to_bytes().unwrap().len(), 33);
    assert!(PdFile::new().to_bytes().is_err());
    assert!(f.set_file_name("").is_err());
}

#[test]
fn test_pd_file_bad_bytes() {
    assert!(PdFile::from_bytes(&[1u8, 2, 3]).is_err());
    let mut f = PdFile::new();
    f.set_file_name("a").unwrap();
    let mut b = f.to_bytes().unwrap();
    b[0] = b'x';
    assert!(PdFile::from_bytes(&b).is_err());
    let mut c = f.to_bytes().unwrap();
    c[32] = 0xff;
    match PdFile::from_bytes(&c) {
        Err(PdFileError::Utf8Error(_)) => {}
        _ => panic!("a file name that is not UTF-8 is refused"),
    }
}

#[test]
fn test_pd_file_open_with() {
    match PdFile::open_with(false, None, "a").unwrap() {
        PdFileResult::Created(_) => {}
        _ => panic!("no target: a new pd file"),
    }
    match PdFile::open_with(true, None, "a").unwrap() {
        PdFileResult::TargetExisted => {}
        _ => panic!("a target without pd file is downloaded"),
    }
    let mut f = PdFile::new();
    f.set_file_name("a").unwrap();
    f.set_file_size(10);
    let b = f.to_bytes().unwrap();
    match PdFile::open_with(true, Some(&b), "a").unwrap() {
        PdFileResult::ExistedOk(g) => assert_eq!(g.get_file_size(), 10),
        _ => panic!("a target with its pd file goes on"),
    }
    f.complete();
    let b = f.to_bytes().unwrap();
    match PdFile::open_with(true, Some(&b), "a").unwrap() {
        PdFileResult::TargetExisted => {}
        _ => panic!("a completed pd file means the target is downloaded"),
    }
}

#[test]
fn test_count_parts() {
    assert_eq!(count_parts(0, 0x10000), 0);
    assert_eq!(count_parts(1, 0x10000), 1);
    assert_eq!(count_parts(0x10000, 0x10000), 1);
    assert_eq!(count_parts(0x10001, 0x10000), 2);
    assert_eq!(count_parts(u64::MAX, 1), u64::MAX);
}

#[test]
fn test_version_against_slices() {
    let b: &[u8] = &[1, 10, 7];
    assert!(PdFileVersion::new(1, 10) == *b);
    assert!(PdFileVersion::new(2, 0) > *b);
    let short: &[u8] = &[1];
    assert!(!(PdFileVersion::new(2, 0) > *short));
    assert!(PdFileVersion::new(2, 0).partial_cmp(short).is_none());
}
