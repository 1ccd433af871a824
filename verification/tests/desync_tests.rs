//! The divergence semantics: a mutation whose encoding fails leaves the
//! backing file already truncated, so memory and file disagree until the
//! next successful write.  `Digit` values above nine cannot be encoded.

use filesync::CodecError;
use filesync::Digit;
use filesync::FileSync;
use filesync::FileSyncError;
use filesync::Fs;

#[test]
fn digit_round_trip() {
    let mut fs = Fs::new();
    let s = FileSync::<Digit>::new(&mut fs, "d.json", Digit { value: 9 }, false).unwrap();
    assert_eq!(fs.read("d.json"), b"9".to_vec());
    let t = FileSync::<Digit>::load(&fs, "d.json", false).unwrap();
    assert_eq!(*t.get(), *s.get());
}

#[test]
fn new_with_unencodable_value_fails_and_leaves_empty_file() {
    let mut fs = Fs::new();
    let r = FileSync::<Digit>::new(&mut fs, "d.json", Digit { value: 12 }, false);
    assert!(matches!(
        r,
        Err(FileSyncError::SerializationError(CodecError::EncodeFailed))
    ));
    assert!(fs.contains_path("d.json"));
    assert!(fs.read("d.json").is_empty());
}

#[test]
fn failed_set_diverges_but_object_stays_usable() {
    let mut fs = Fs::new();
    let mut s = FileSync::<Digit>::new(&mut fs, "d.json", Digit { value: 5 }, false).unwrap();
    let r = s.set(&mut fs, Digit { value: 12 });
    assert!(matches!(
        r,
        Err(FileSyncError::SerializationError(CodecError::EncodeFailed))
    ));
    assert_eq!(s.get().value, 5);
    assert!(fs.read("d.json").is_empty());
    s.set(&mut fs, Digit { value: 7 }).unwrap();
    assert_eq!(fs.read("d.json"), b"7".to_vec());
    let t = FileSync::<Digit>::load(&fs, "d.json", false).unwrap();
    assert_eq!(t.get().value, 7);
}

#[test]
fn failed_modify_keeps_the_mutated_value_in_memory() {
    let mut fs = Fs::new();
    let mut s = FileSync::<Digit>::new(&mut fs, "d.json", Digit { value: 5 }, false).unwrap();
    let r = s.modify(&mut fs, |d: &Digit| Digit { value: d.value + 10 });
    assert!(matches!(
        r,
        Err(FileSyncError::SerializationError(CodecError::EncodeFailed))
    ));
    assert_eq!(s.get().value, 15);
    assert!(fs.read("d.json").is_empty());
    let reread = FileSync::<Digit>::load(&fs, "d.json", false);
    assert!(matches!(
        reread,
        Err(FileSyncError::SerializationError(CodecError::DecodeFailed))
    ));
}
