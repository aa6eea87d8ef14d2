use sheetpack::archive::{outcome, WriteError};
use sheetpack::rtype::RType;
use zip::result::ZipError;

#[test]
fn success_of_the_archive_is_handed_on() {
    let r: Result<u8, ZipError> = Ok(7);
    assert!(matches!(outcome(r), Ok(7)));
}

#[test]
fn input_output_failure_keeps_its_cause() {
    let cause = std::io::Error::new(std::io::ErrorKind::WriteZero, "no room");
    let r: Result<(), ZipError> = Err(ZipError::Io(cause));
    match outcome(r) {
        Err(WriteError::Io(e)) => {
            assert_eq!(e.kind(), std::io::ErrorKind::WriteZero);
            assert_eq!(e.to_string(), "no room");
        }
        _ => panic!("an input-output failure was expected"),
    }
}

#[test]
fn invalid_archive_keeps_its_reason() {
    let r: Result<(), ZipError> = Err(ZipError::InvalidArchive("broken"));
    assert!(matches!(outcome(r), Err(WriteError::InvalidArchive("broken"))));
}

#[test]
fn unsupported_archive_keeps_its_reason() {
    let r: Result<(), ZipError> = Err(ZipError::UnsupportedArchive("too new"));
    assert!(matches!(outcome(r), Err(WriteError::UnsupportedArchive("too new"))));
}

#[test]
fn missing_entry_is_told_apart() {
    let r: Result<(), ZipError> = Err(ZipError::FileNotFound);
    assert!(matches!(outcome(r), Err(WriteError::FileNotFound)));
}

#[test]
fn every_failure_describes_itself() {
    let io = WriteError::Io(std::io::Error::new(std::io::ErrorKind::Other, "x"));
    assert_eq!(WriteError::MissingPart(RType::Style).message(), "a mandatory part is missing");
    assert_eq!(io.message(), "input or output failed");
    assert_eq!(WriteError::InvalidArchive("x").message(), "the archive is invalid");
    assert_eq!(WriteError::UnsupportedArchive("x").message(), "the archive is not supported");
    assert_eq!(WriteError::FileNotFound.message(), "an entry was not found");
}

#[test]
fn every_entry_is_stored_as_it_is() {
    let o = sheetpack::archive::options();
    assert_eq!(o.compression_method, sheetpack::archive::CompressionMethod::Stored);
}

#[test]
fn open_archive_takes_entries_and_finishes() {
    let mut archive = sheetpack::archive::Archive::new();
    assert!(archive.add_directory("a").is_ok());
    assert!(archive.add_file("a/b.xml", "").is_ok());
    assert!(archive.add_file("a/c.xml", "<c/>").is_ok());
    assert!(archive.finish().is_ok());
}
