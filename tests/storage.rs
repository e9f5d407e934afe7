use rust_backend::storage::{Storage, SCHOOLS_DATA_FILE};

#[test]
fn data_path_joins_directory_and_file() {
    let storage = Storage::new("/var/app".to_string());
    assert_eq!(storage.data_path("test.json"), "/var/app/test.json");
    assert_eq!(storage.data_path(SCHOOLS_DATA_FILE), "/var/app/data.json");
    assert_eq!(storage.data_dir(), "/var/app");
}

#[test]
fn missing_file_does_not_exist() {
    let storage = Storage::new("/nonexistent-dir-for-storage-test".to_string());
    assert!(!storage.file_exists("test.json"));
}

#[test]
fn advisor_binary_path() {
    assert_eq!(
        rust_backend::paths::advisor_path("../lean-backend"),
        "../lean-backend/.lake/build/bin/advisor"
    );
}

#[test]
fn test_exists() {
    let dir = tempfile::tempdir().unwrap();
    let storage = Storage::new(dir.path().to_string_lossy().into_owned());

    assert!(!storage.file_exists("test.json"));

    let file = tempfile::Builder::new()
        .prefix("test")
        .suffix(".json")
        .rand_bytes(0)
        .tempfile_in(dir.path())
        .unwrap();
    assert!(storage.file_exists("test.json"));
    drop(file);
}
