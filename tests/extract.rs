use std::io::Write;

use qnpm::extract::{plan_extraction, relative_path, unpack_tarball, ArchiveEntry, DownloadError, WriteOp};

fn header(path: &str, kind: tar::EntryType, size: u64) -> tar::Header {
    let mut h = tar::Header::new_gnu();
    h.set_path(path).unwrap();
    h.set_entry_type(kind);
    h.set_size(size);
    h.set_mode(0o644);
    h
}

fn tarball() -> Vec<u8> {
    let mut b = tar::Builder::new(Vec::new());
    let mut d = header("package/", tar::EntryType::Directory, 0);
    d.set_cksum();
    b.append(&d, &[][..]).unwrap();
    let json = b"{\"name\":\"left-pad\"}";
    let mut f = header("package/package.json", tar::EntryType::Regular, json.len() as u64);
    f.set_cksum();
    b.append(&f, &json[..]).unwrap();
    let mut l = header("package/evil", tar::EntryType::Symlink, 0);
    l.set_link_name("/etc/passwd").unwrap();
    l.set_cksum();
    b.append(&l, &[][..]).unwrap();
    let code = b"module.exports = 1;";
    let mut g = header("package/lib/index.js", tar::EntryType::Regular, code.len() as u64);
    g.set_cksum();
    b.append(&g, &code[..]).unwrap();
    let raw = b.into_inner().unwrap();
    let mut enc = flate2::write::GzEncoder::new(Vec::new(), flate2::Compression::default());
    enc.write_all(&raw).unwrap();
    enc.finish().unwrap()
}

#[test]
fn unpack_drops_links_and_wrapper_directory() {
    let ops = unpack_tarball(&tarball()).unwrap();
    assert_eq!(
        ops,
        vec![
            WriteOp::CreateDir(String::new()),
            WriteOp::WriteFile("package.json".to_string(), b"{\"name\":\"left-pad\"}".to_vec()),
            WriteOp::WriteFile("lib/index.js".to_string(), b"module.exports = 1;".to_vec()),
        ]
    );
}

#[test]
fn not_gzip_is_an_extraction_failure() {
    let r = unpack_tarball(&b"plain bytes".to_vec());
    assert!(matches!(r, Err(DownloadError::ExtractionFailed(_))));
}

#[test]
fn gzip_of_garbage_is_an_extraction_failure() {
    let mut enc = flate2::write::GzEncoder::new(Vec::new(), flate2::Compression::default());
    enc.write_all(&[7u8; 700]).unwrap();
    let r = unpack_tarball(&enc.finish().unwrap());
    assert!(matches!(r, Err(DownloadError::ExtractionFailed(_))));
}

#[test]
fn only_files_and_directories_are_planned() {
    let members = vec![
        ArchiveEntry { kind: b'5', path: Some("package/lib".to_string()), data: vec![] },
        ArchiveEntry { kind: b'2', path: Some("package/link".to_string()), data: vec![] },
        ArchiveEntry { kind: b'1', path: Some("package/hard".to_string()), data: vec![] },
        ArchiveEntry { kind: b'3', path: Some("package/dev".to_string()), data: vec![] },
        ArchiveEntry { kind: b'0', path: Some("package/a.txt".to_string()), data: vec![1, 2] },
    ];
    assert_eq!(
        plan_extraction(members),
        Some(vec![WriteOp::CreateDir("lib".to_string()), WriteOp::WriteFile("a.txt".to_string(), vec![1, 2])])
    );
}

#[test]
fn unreadable_path_matters_only_for_written_members() {
    let dropped = vec![
        ArchiveEntry { kind: b'2', path: None, data: vec![] },
        ArchiveEntry { kind: b'0', path: Some("package/a".to_string()), data: vec![9] },
    ];
    assert_eq!(plan_extraction(dropped), Some(vec![WriteOp::WriteFile("a".to_string(), vec![9])]));
    let written = vec![
        ArchiveEntry { kind: b'0', path: None, data: vec![1] },
        ArchiveEntry { kind: b'0', path: Some("package/a".to_string()), data: vec![9] },
    ];
    assert_eq!(plan_extraction(written), None);
}

#[test]
fn first_component_is_stripped() {
    assert_eq!(relative_path("package/lib/index.js"), "lib/index.js");
    assert_eq!(relative_path("package//x"), "x");
    assert_eq!(relative_path("/etc/passwd"), "etc/passwd");
    assert_eq!(relative_path("package"), "");
    assert_eq!(relative_path("package/"), "");
}
