use nefu::pack::{
    assemble_package, build_payload, extract_package_info, hex_encode, normalize_resource_path,
    read_u64_le, verify_package, write_u64_le, zip_archive, PackError, ResourcePack, MAGIC,
    MAGIC_LEN, TRAILER_SIZE,
};

fn package_of(entries: Vec<(String, Vec<u8>)>, no_encrypt: bool) -> Vec<u8> {
    let zip = zip_archive(&entries, false).unwrap();
    let payload = build_payload(zip, no_encrypt).unwrap();
    assemble_package(b"MZ fake host executable", &payload)
}

#[test]
fn test_normalize_resource_path() {
    assert_eq!(normalize_resource_path("/index.html"), "index.html");
    assert_eq!(normalize_resource_path("css/style.css"), "css/style.css");
    assert_eq!(normalize_resource_path("nefu://localhost/index.html"), "index.html");
    assert_eq!(normalize_resource_path("path\\to\\file.txt"), "path/to/file.txt");
}

#[test]
fn test_magic_constant() {
    assert_eq!(&MAGIC, b"NEFUPACK");
    assert_eq!(MAGIC_LEN, 8);
}

#[test]
fn test_trailer_size() {
    assert_eq!(TRAILER_SIZE, 8 + 32 + 8);
    assert_eq!(TRAILER_SIZE, 48);
}

#[test]
fn test_hex_encode() {
    assert_eq!(hex_encode(&[0xde, 0xad, 0xbe, 0xef]), "deadbeef");
    assert_eq!(hex_encode(&[0x00, 0xff]), "00ff");
}

#[test]
fn test_verify_package_too_short() {
    let data = vec![0u8; 10];
    assert!(verify_package(&data).is_err());
}

#[test]
fn test_verify_package_invalid_magic() {
    let mut data = vec![0u8; 100];
    data[92..100].copy_from_slice(b"INVALID!");
    assert!(verify_package(&data).is_err());
}

#[test]
fn test_resource_pack_new() {
    let pack = ResourcePack::new();
    assert_eq!(pack.file_count(), 0);
    assert_eq!(pack.total_size(), 0);
}

#[test]
fn test_create_zip_archive_empty() {
    let files: Vec<(String, Vec<u8>)> = Vec::new();
    assert!(zip_archive(&files, false).is_some());
    assert!(zip_archive(&files, true).is_some());
}

#[test]
fn test_extract_package_info_too_short() {
    let data = vec![0u8; 10];
    assert!(extract_package_info(&data).is_err());
}

#[test]
fn test_build_then_unpack_roundtrip() {
    let data = package_of(
        vec![
            ("index.html".to_string(), b"<html>hi</html>".to_vec()),
            ("main.nefu".to_string(), b"entry = \"index.html\"\noutput = \"t\"\n".to_vec()),
        ],
        false,
    );
    assert_eq!(&data[data.len() - MAGIC_LEN..], &MAGIC);
    assert!(verify_package(&data).unwrap());

    let info = extract_package_info(&data).unwrap();
    assert!(info.total_size == data.len());
    assert!(info.encrypted_data_size > 0);

    let pack = ResourcePack::unpack(&data).unwrap();
    assert_eq!(pack.file_count(), 2);
    assert!(pack.get("index.html").is_some());
    assert!(pack.get("main.nefu").is_some());
    assert_eq!(pack.get("index.html").unwrap().as_slice(), b"<html>hi</html>");
}

// ---- further cases ----

#[test]
fn unencrypted_roundtrip_keeps_contents_and_sizes() {
    let data = package_of(
        vec![("a/b.txt".to_string(), b"abc".to_vec()), ("c.txt".to_string(), b"de".to_vec())],
        true,
    );
    let pack = ResourcePack::unpack(&data).unwrap();
    assert_eq!(pack.file_count(), 2);
    assert_eq!(pack.total_size(), 5);
    assert!(pack.contains("/a/b.txt"));
    assert!(pack.contains("nefu://localhost/c.txt"));
    assert!(!pack.contains("missing"));
    let mut names = pack.list_files();
    names.sort();
    assert_eq!(names, vec!["a/b.txt".to_string(), "c.txt".to_string()]);
}

#[test]
fn info_reports_exe_size_and_checksum_text() {
    let data = package_of(vec![("x".to_string(), b"y".to_vec())], true);
    let info = extract_package_info(&data).unwrap();
    assert_eq!(info.original_exe_size, b"MZ fake host executable".len());
    assert_eq!(info.original_exe_size + info.encrypted_data_size + TRAILER_SIZE, data.len());
    assert_eq!(info.checksum_hex.len(), 64);
}

#[test]
fn flipped_payload_byte_fails_checksum() {
    let mut data = package_of(vec![("x".to_string(), b"y".to_vec())], true);
    let exe_len = b"MZ fake host executable".len();
    data[exe_len] ^= 0xff;
    assert!(!verify_package(&data).unwrap());
    assert!(ResourcePack::unpack(&data).is_err());
}

#[test]
fn bad_magic_is_named() {
    let data = vec![0u8; 60];
    assert!(matches!(verify_package(&data), Err(PackError::BadMagic)));
    assert!(matches!(extract_package_info(&data[..5]), Err(PackError::TooShort)));
}

#[test]
fn little_endian_roundtrip() {
    let b = write_u64_le(0x0102030405060708);
    assert_eq!(b, vec![8, 7, 6, 5, 4, 3, 2, 1]);
    assert_eq!(read_u64_le(&b), 0x0102030405060708);
}

#[test]
fn payload_without_encryption_is_the_archive() {
    let zip = zip_archive(&vec![("k".to_string(), b"v".to_vec())], true).unwrap();
    let payload = build_payload(zip.clone(), true).unwrap();
    assert_eq!(payload, zip);
    let sealed = build_payload(zip.clone(), false).unwrap();
    assert_ne!(sealed, zip);
}

#[test]
fn packable_files() {
    let mut config = nefu::config::NefuConfig::default();
    config.exclude = vec!["*.md".to_string()];
    assert!(nefu::pack::is_packable(&config, "index.html"));
    assert!(nefu::pack::is_packable(&config, "js/app.js"));
    assert!(!nefu::pack::is_packable(&config, "README.md"));
    assert!(!nefu::pack::is_packable(&config, "target/debug/x.html"));
    assert!(!nefu::pack::is_packable(&config, "native/lib.HPP"));
    assert!(!nefu::pack::is_packable(&config, "libfoo.so"));
    assert!(nefu::pack::is_packable(&config, "data/solo.json"));
}

#[test]
fn fingerprint_follows_settings_paths_and_contents() {
    let a = vec![
        ("b.js".to_string(), Some(b"two".to_vec())),
        ("a.html".to_string(), Some(b"one".to_vec())),
    ];
    let b = vec![
        ("a.html".to_string(), Some(b"one".to_vec())),
        ("b.js".to_string(), Some(b"two".to_vec())),
    ];
    let f = nefu::pack::files_fingerprint(false, false, &a);
    assert_eq!(f.len(), 64);
    assert_eq!(f, nefu::pack::files_fingerprint(false, false, &b));
    assert_ne!(f, nefu::pack::files_fingerprint(true, false, &a));
    assert_ne!(f, nefu::pack::files_fingerprint(false, true, &a));
    let c = vec![
        ("a.html".to_string(), Some(b"one!".to_vec())),
        ("b.js".to_string(), Some(b"two".to_vec())),
    ];
    assert_ne!(f, nefu::pack::files_fingerprint(false, false, &c));
    let empty: Vec<(String, Option<Vec<u8>>)> = vec![];
    assert_eq!(
        nefu::pack::files_fingerprint(false, false, &empty),
        "e5c6c30fa736c73fcebfdf28b4452b590715939354784e5d305e1fd2f3ce8177"
    );
    assert_eq!(f, "7d16b7d328634ea8811d792d9b6d0c38ae57bc51ece9240c96482198aee5f15a");
}

#[test]
fn packed_resources_unpack_again() {
    let entries = vec![("index.html".to_string(), b"<h1>hi</h1>".to_vec())];
    let plain = nefu::pack::pack_resources(&entries, true, true).unwrap();
    assert_eq!(plain, zip_archive(&entries, true).unwrap());
    for no_encrypt in [false, true] {
        let payload = nefu::pack::pack_resources(&entries, false, no_encrypt).unwrap();
        let package = nefu::pack::assemble_package(b"EXE", &payload);
        let pack = ResourcePack::unpack(&package).unwrap();
        assert_eq!(pack.get("index.html"), Some(&b"<h1>hi</h1>".to_vec()));
    }
}
