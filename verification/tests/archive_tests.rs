use flate2::write::GzEncoder;
use flate2::Compression;
use ge_man::archive::{checksums_match, decompress, tar_first_entry_name, ArchiveError};
use ge_man::tag::TagKind;
use std::io::Write;

const ABC_SHA512: &str = "ddaf35a193617abacc417349ae20413112e6fa4e89a97ea20a9eeee64b55d39a2192992a274fc1a836ba3c23a3feebbd454d4423643ce80e2a9ac94fa54ca49f";

#[test]
fn matching_checksum_is_accepted() {
    let data = b"abc";
    assert!(checksums_match(data, ABC_SHA512.as_bytes()));
}

#[test]
fn checksum_with_trailing_file_name_is_accepted() {
    let data = b"abc";
    let with_name = format!("{}  test.tar.gz", ABC_SHA512);
    assert!(checksums_match(data, with_name.as_bytes()));
}

#[test]
fn wrong_checksum_is_rejected() {
    let data = b"abc";
    assert!(!checksums_match(data, b"unreal-checksum"));
    assert!(!checksums_match(data, b"   "));
}

#[test]
fn gzip_decompression_round_trips_for_proton() {
    let payload = b"hello archive bytes".to_vec();
    let mut encoder = GzEncoder::new(Vec::new(), Compression::default());
    encoder.write_all(&payload).unwrap();
    let compressed = encoder.finish().unwrap();
    let decoded = decompress(&TagKind::Proton, compressed.as_slice()).unwrap();
    assert_eq!(decoded, payload);
}

#[test]
fn wrong_container_format_is_a_decode_error() {
    let payload = b"hello archive bytes".to_vec();
    let mut encoder = GzEncoder::new(Vec::new(), Compression::default());
    encoder.write_all(&payload).unwrap();
    let compressed = encoder.finish().unwrap();
    let result = decompress(&TagKind::wine(), compressed.as_slice());
    assert!(matches!(result, Err(ArchiveError::DecodeError)));
}

#[test]
fn tar_first_entry_names_the_top_level_directory() {
    let mut header = tar::Header::new_gnu();
    header.set_path("test/").unwrap();
    header.set_size(0);
    header.set_entry_type(tar::EntryType::Directory);
    header.set_cksum();
    let mut builder = tar::Builder::new(Vec::new());
    builder.append(&header, std::io::empty()).unwrap();
    let mut file_header = tar::Header::new_gnu();
    file_header.set_path("test/hello-world.txt").unwrap();
    file_header.set_size(5);
    file_header.set_cksum();
    builder.append(&file_header, &b"hello"[..]).unwrap();
    let tar_bytes = builder.into_inner().unwrap();
    let name = tar_first_entry_name(tar_bytes.as_slice()).unwrap();
    assert_eq!(name, "test/");
}

#[test]
fn too_short_archive_has_no_entry_name() {
    assert!(tar_first_entry_name(b"short").is_none());
}
