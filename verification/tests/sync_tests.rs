use filesync::Counter;
use filesync::FileSync;
use filesync::FileSyncError;
use filesync::Fs;

#[test]
fn round_trip_new_get_load() {
    let mut fs = Fs::new();
    let s = FileSync::<Counter>::new(&mut fs, "a.json", Counter { count: 7 }, false).unwrap();
    assert_eq!(*s.get(), Counter { count: 7 });
    let t = FileSync::<Counter>::load(&fs, "a.json", false).unwrap();
    assert_eq!(*t.get(), Counter { count: 7 });
}

#[test]
fn round_trip_pretty() {
    let mut fs = Fs::new();
    let s = FileSync::<Counter>::new(&mut fs, "a.json", Counter { count: 42 }, true).unwrap();
    assert_eq!(*s.get(), Counter { count: 42 });
    let t = FileSync::<Counter>::load(&fs, "a.json", true).unwrap();
    assert_eq!(*t.get(), Counter { count: 42 });
}

#[test]
fn idempotent_get() {
    let mut fs = Fs::new();
    let s = FileSync::<Counter>::new(&mut fs, "a.json", Counter { count: 3 }, false).unwrap();
    let before = fs.read("a.json");
    let v1 = *s.get();
    let v2 = *s.get();
    assert_eq!(v1, v2);
    assert_eq!(fs.read("a.json"), before);
}

#[test]
fn existence_guard() {
    let mut fs = Fs::new();
    let _s = FileSync::<Counter>::new(&mut fs, "a.json", Counter { count: 5 }, false).unwrap();
    let before = fs.read("a.json");
    let r = FileSync::<Counter>::new(&mut fs, "a.json", Counter { count: 9 }, false);
    match r {
        Err(FileSyncError::FileAlreadyExists { fp }) => assert_eq!(fp, "a.json"),
        _ => panic!("expected FileAlreadyExists"),
    }
    assert_eq!(fs.read("a.json"), before);
}

#[test]
fn set_then_load_consistency() {
    let mut fs = Fs::new();
    let mut s = FileSync::<Counter>::new(&mut fs, "a.json", Counter { count: 0 }, false).unwrap();
    s.set(&mut fs, Counter { count: 1 }).unwrap();
    s.set(&mut fs, Counter { count: 2 }).unwrap();
    s.set(&mut fs, Counter { count: 3 }).unwrap();
    assert_eq!(*s.get(), Counter { count: 3 });
    drop(s);
    let t = FileSync::<Counter>::load(&fs, "a.json", false).unwrap();
    assert_eq!(*t.get(), Counter { count: 3 });
}

#[test]
fn modify_equivalence() {
    let mut fs = Fs::new();
    let mut s = FileSync::<Counter>::new(&mut fs, "a.json", Counter { count: 10 }, false).unwrap();
    let before = *s.get();
    s.modify(&mut fs, |c: &Counter| Counter { count: c.count * 2 + 1 }).unwrap();
    assert_eq!(s.get().count, before.count * 2 + 1);
}

#[test]
fn pretty_mode_neutrality() {
    let mut fs = Fs::new();
    let _c = FileSync::<Counter>::new(&mut fs, "c.json", Counter { count: 11 }, false).unwrap();
    let _p = FileSync::<Counter>::new(&mut fs, "p.json", Counter { count: 11 }, true).unwrap();
    assert_ne!(fs.read("c.json"), fs.read("p.json"));
    let from_compact = FileSync::<Counter>::load(&fs, "c.json", false).unwrap();
    let from_pretty = FileSync::<Counter>::load(&fs, "p.json", false).unwrap();
    assert_eq!(*from_compact.get(), *from_pretty.get());
    assert_eq!(*from_compact.get(), Counter { count: 11 });
}

#[test]
fn example_scenario() {
    let mut fs = Fs::new();
    let mut s = FileSync::<Counter>::new(&mut fs, "state.json", Counter { count: 0 }, false)
        .unwrap();
    assert_eq!(fs.read("state.json"), b"{\"count\":0}".to_vec());
    s.modify(&mut fs, |c: &Counter| Counter { count: c.count + 1 }).unwrap();
    assert_eq!(fs.read("state.json"), b"{\"count\":1}".to_vec());
    assert_eq!(s.get().count, 1);
    let t = FileSync::<Counter>::load(&fs, "state.json", false).unwrap();
    assert_eq!(*t.get(), Counter { count: 1 });
}

#[test]
fn load_missing_path_is_io_error() {
    let fs = Fs::new();
    let r = FileSync::<Counter>::load(&fs, "missing.json", false);
    assert!(matches!(r, Err(FileSyncError::IoError)));
}

#[test]
fn load_malformed_is_serialization_error() {
    let mut fs = Fs::new();
    fs.create("bad.json");
    fs.append("bad.json", &b"{\"count\":}".to_vec());
    let r = FileSync::<Counter>::load(&fs, "bad.json", false);
    assert!(matches!(r, Err(FileSyncError::SerializationError(_))));
}

#[test]
fn load_empty_file_is_serialization_error() {
    let mut fs = Fs::new();
    fs.create("empty.json");
    let r = FileSync::<Counter>::load(&fs, "empty.json", false);
    assert!(matches!(r, Err(FileSyncError::SerializationError(_))));
}

#[test]
fn load_overflowing_count_is_serialization_error() {
    let mut fs = Fs::new();
    fs.create("big.json");
    fs.append("big.json", &b"{\"count\":18446744073709551616}".to_vec());
    let r = FileSync::<Counter>::load(&fs, "big.json", false);
    assert!(matches!(r, Err(FileSyncError::SerializationError(_))));
}

#[test]
fn largest_count_round_trips() {
    let mut fs = Fs::new();
    let s = FileSync::<Counter>::new(&mut fs, "max.json", Counter { count: u64::MAX }, false)
        .unwrap();
    assert_eq!(fs.read("max.json"), b"{\"count\":18446744073709551615}".to_vec());
    let t = FileSync::<Counter>::load(&fs, "max.json", false).unwrap();
    assert_eq!(*t.get(), *s.get());
}

#[test]
fn load_or_new_dispatches() {
    let mut fs = Fs::new();
    let s = FileSync::<Counter>::load_or_new(&mut fs, "a.json", Counter { count: 4 }, false)
        .unwrap();
    assert_eq!(s.get().count, 4);
    drop(s);
    let t = FileSync::<Counter>::load_or_new(&mut fs, "a.json", Counter { count: 99 }, false)
        .unwrap();
    assert_eq!(t.get().count, 4);
}

#[test]
fn mutation_leaves_other_files_alone() {
    let mut fs = Fs::new();
    let mut a = FileSync::<Counter>::new(&mut fs, "a.json", Counter { count: 1 }, false).unwrap();
    let _b = FileSync::<Counter>::new(&mut fs, "b.json", Counter { count: 2 }, false).unwrap();
    let b_before = fs.read("b.json");
    a.set(&mut fs, Counter { count: 100 }).unwrap();
    a.modify(&mut fs, |c: &Counter| Counter { count: c.count + 1 }).unwrap();
    assert_eq!(fs.read("b.json"), b_before);
    assert_eq!(a.get().count, 101);
}

#[test]
fn pretty_flag_changes_only_future_writes() {
    let mut fs = Fs::new();
    let mut s = FileSync::<Counter>::new(&mut fs, "a.json", Counter { count: 1 }, false).unwrap();
    let compact = fs.read("a.json");
    s.pretty = true;
    assert_eq!(fs.read("a.json"), compact);
    s.set(&mut fs, Counter { count: 1 }).unwrap();
    assert_ne!(fs.read("a.json"), compact);
    let t = FileSync::<Counter>::load(&fs, "a.json", false).unwrap();
    assert_eq!(t.get().count, 1);
}
