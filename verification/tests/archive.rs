use std::io::Write;

use tachiyomi_backup_to_anilist::archive::{decompress_backup, ArchiveError};

fn gzip(data: &[u8]) -> Vec<u8> {
    let mut encoder = libflate::gzip::Encoder::new(Vec::new()).unwrap();
    encoder.write_all(data).unwrap();
    encoder.finish().into_result().unwrap()
}

#[test]
fn opens_a_gzip_archive() {
    let payload = b"\x0a\x05hello world".to_vec();
    assert_eq!(decompress_backup(&gzip(&payload)).unwrap(), payload);
    assert_eq!(decompress_backup(&gzip(&[])).unwrap(), Vec::<u8>::new());
}

#[test]
fn refuses_what_is_not_gzip() {
    assert_eq!(decompress_backup(b"not a gzip stream"), Err(ArchiveError::NotGzip));
    assert_eq!(decompress_backup(&[]), Err(ArchiveError::NotGzip));
    let mut truncated = gzip(b"some backup bytes");
    truncated.truncate(truncated.len() - 5);
    assert_eq!(decompress_backup(&truncated), Err(ArchiveError::NotGzip));
}
