use filesense::classify::Category;
use filesense::scan::{
    analyze_listing, classify_entries, default_folder_candidate, DirectoryProbe, ScanEntry,
    ScanError,
};

fn entry(name: &str, is_dir: bool) -> ScanEntry {
    let mut path = String::from("/scan/");
    path.push_str(name);
    ScanEntry { name: name.to_string(), path, size: 7, is_dir }
}

const ALL_LABELS: [Category; 11] = [
    Category::Documents,
    Category::Images,
    Category::Videos,
    Category::Audio,
    Category::Archives,
    Category::Code,
    Category::Software,
    Category::WorkDocuments,
    Category::PersonalPhotos,
    Category::Sensitive,
    Category::Other,
];

#[test]
fn empty_listing_gives_zero_files_and_all_buckets_empty() {
    let analysis = match analyze_listing(DirectoryProbe::Listing(Vec::new())) {
        Ok(a) => a,
        Err(_) => panic!("empty listing must analyze"),
    };
    assert_eq!(analysis.total_files, 0);
    for label in ALL_LABELS {
        assert!(analysis.files_for(label).is_empty());
    }
}

#[test]
fn missing_path_is_not_found() {
    assert_eq!(analyze_listing(DirectoryProbe::Missing).err(), Some(ScanError::NotFound));
}

#[test]
fn file_path_is_not_a_directory() {
    assert_eq!(
        analyze_listing(DirectoryProbe::NotDirectory).err(),
        Some(ScanError::NotADirectory)
    );
}

#[test]
fn unreadable_listing_is_read_error() {
    assert_eq!(
        analyze_listing(DirectoryProbe::Unreadable("permission denied".to_string())).err(),
        Some(ScanError::ReadError("permission denied".to_string()))
    );
}

#[test]
fn directories_and_hidden_entries_are_skipped() {
    let entries = vec![
        entry("subdir", true),
        entry(".config", false),
        entry("notes.txt", false),
        entry("song.mp3", false),
    ];
    let analysis = classify_entries(entries);
    assert_eq!(analysis.total_files, 2);
    assert_eq!(analysis.documents.len(), 1);
    assert_eq!(analysis.audio.len(), 1);
    assert_eq!(analysis.documents[0].name, "notes.txt");
    assert_eq!(analysis.documents[0].path, "/scan/notes.txt");
    assert_eq!(analysis.documents[0].extension, "txt");
}

#[test]
fn listing_order_is_kept_within_a_bucket() {
    let entries = vec![entry("b.txt", false), entry("a.txt", false)];
    let analysis = classify_entries(entries);
    assert_eq!(analysis.documents.len(), 2);
    assert_eq!(analysis.documents[0].name, "b.txt");
    assert_eq!(analysis.documents[1].name, "a.txt");
}

#[test]
fn default_folder_prefers_home_downloads() {
    assert_eq!(default_folder_candidate(Some("/home/me")), "/home/me/Downloads");
    assert_eq!(default_folder_candidate(None), "/Users");
}
