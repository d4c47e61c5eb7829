use std::io::Write;

use rmcll::archive::extract_archive_entries;
use rmcll::versions::Error;

fn stored_archive(entries: &[(&str, &[u8])]) -> Vec<u8> {
    let mut w = zip::ZipWriter::new(std::io::Cursor::new(Vec::new()));
    let opts = zip::write::FileOptions::default()
        .compression_method(zip::CompressionMethod::Stored);
    for (name, data) in entries {
        w.start_file(*name, opts).unwrap();
        w.write_all(data).unwrap();
    }
    w.finish().unwrap().into_inner()
}

#[test]
fn extraction_skips_excluded_prefixes() {
    let bytes = stored_archive(&[("lib.so", b"binary"), ("META-INF/x", b"meta")]);
    let plan = extract_archive_entries(&bytes, &vec!["META-INF".to_string()]).unwrap();
    let names: Vec<&str> = plan.iter().map(|e| e.0.as_str()).collect();
    assert_eq!(names, vec!["lib.so"]);
}

#[test]
fn extraction_keeps_archive_order_and_contents() {
    let bytes = stored_archive(&[
        ("a.so", b"alpha"),
        ("dir/b.so", b"beta"),
        ("c.txt", b"gamma"),
    ]);
    let plan = extract_archive_entries(&bytes, &vec![]).unwrap();
    assert_eq!(plan.len(), 3);
    assert_eq!(plan[0].0, "a.so");
    assert_eq!(plan[0].1, b"alpha");
    assert_eq!(plan[1].0, "dir/b.so");
    assert_eq!(plan[1].1, b"beta");
    assert_eq!(plan[2].0, "c.txt");
    assert_eq!(plan[2].1, b"gamma");
}

#[test]
fn several_prefixes_apply_together() {
    let bytes = stored_archive(&[
        ("keep.so", b"k"),
        ("META-INF/MANIFEST.MF", b"m"),
        ("docs/readme", b"d"),
    ]);
    let excluded = vec!["META-INF".to_string(), "docs".to_string()];
    let plan = extract_archive_entries(&bytes, &excluded).unwrap();
    assert_eq!(plan.len(), 1);
    assert_eq!(plan[0].0, "keep.so");
}

#[test]
fn unreadable_bytes_fail_with_archive_error() {
    let garbage = vec![0u8, 1, 2, 3, 4, 5, 6, 7];
    let r = extract_archive_entries(&garbage, &vec![]);
    assert!(matches!(r, Err(Error::ArchiveReadError(_))));
}
