use filesense::classify::{
    categorize_file, is_personal_photo, is_sensitive_file, is_work_document, Category, FileRecord,
};
use filesense::text::get_file_extension;

fn record(name: &str) -> FileRecord {
    let mut path = String::from("/scan/");
    path.push_str(name);
    FileRecord::new(name.to_string(), path, 42)
}

#[test]
fn sensitive_keyword_beats_document_extension() {
    assert_eq!(categorize_file(&record("tax_2024.pdf")), Category::Sensitive);
}

#[test]
fn sensitive_keyword_beats_image_extension() {
    assert_eq!(categorize_file(&record("bank_statement.png")), Category::Sensitive);
}

#[test]
fn sensitive_keyword_without_extension() {
    assert_eq!(categorize_file(&record("passwords")), Category::Sensitive);
}

#[test]
fn sensitive_matching_is_case_insensitive() {
    assert_eq!(categorize_file(&record("TAX-RETURN.PDF")), Category::Sensitive);
}

#[test]
fn work_keyword_in_document_group() {
    assert_eq!(categorize_file(&record("quarterly_report.docx")), Category::WorkDocuments);
}

#[test]
fn document_without_work_keyword() {
    assert_eq!(categorize_file(&record("notes.txt")), Category::Documents);
}

#[test]
fn spreadsheets_are_documents() {
    assert_eq!(categorize_file(&record("data.xlsx")), Category::Documents);
    assert_eq!(categorize_file(&record("slides.pptx")), Category::Documents);
}

#[test]
fn personal_keyword_in_image_group() {
    assert_eq!(categorize_file(&record("family_vacation.jpg")), Category::PersonalPhotos);
}

#[test]
fn date_pattern_in_image_group() {
    assert_eq!(categorize_file(&record("beach_2024.png")), Category::PersonalPhotos);
}

#[test]
fn image_without_personal_marker() {
    assert_eq!(categorize_file(&record("sunset.jpg")), Category::Images);
}

#[test]
fn img_keyword_counts_as_personal() {
    assert_eq!(categorize_file(&record("IMG_0001.jpg")), Category::PersonalPhotos);
}

#[test]
fn image_with_unlisted_year_is_plain_image() {
    assert_eq!(categorize_file(&record("scan_2019.png")), Category::Images);
}

#[test]
fn video_audio_archive_code_software_groups() {
    assert_eq!(categorize_file(&record("clip.mp4")), Category::Videos);
    assert_eq!(categorize_file(&record("song.mp3")), Category::Audio);
    assert_eq!(categorize_file(&record("bundle.zip")), Category::Archives);
    assert_eq!(categorize_file(&record("tool.rs")), Category::Code);
    assert_eq!(categorize_file(&record("setup.exe")), Category::Software);
}

#[test]
fn unlisted_extension_is_other() {
    assert_eq!(categorize_file(&record("data.xyz")), Category::Other);
}

#[test]
fn no_extension_is_other() {
    assert_eq!(categorize_file(&record("readme")), Category::Other);
}

#[test]
fn keyword_matching_is_substring_not_whole_word() {
    assert_eq!(categorize_file(&record("monkey.txt")), Category::Sensitive);
}

#[test]
fn keyword_predicates_match_substrings() {
    assert!(is_sensitive_file("my_SSN_copy"));
    assert!(!is_sensitive_file("holiday_snaps"));
    assert!(is_work_document("Invoice-March"));
    assert!(!is_work_document("notes"));
    assert!(is_personal_photo("wedding_day"));
    assert!(is_personal_photo("shot_20xx_2025"));
    assert!(!is_personal_photo("sunset"));
}

#[test]
fn extension_is_lowercased_text_after_last_dot() {
    assert_eq!(get_file_extension("a.TXT"), "txt");
    assert_eq!(get_file_extension("archive.tar.gz"), "gz");
    assert_eq!(get_file_extension("noext"), "");
    assert_eq!(get_file_extension("trailing."), "");
    assert_eq!(get_file_extension(".hidden"), "hidden");
}

#[test]
fn dir_names_cover_all_labels() {
    assert_eq!(Category::WorkDocuments.dir_name(), "Work Documents");
    assert_eq!(Category::PersonalPhotos.dir_name(), "Personal Photos");
    assert_eq!(Category::Other.dir_name(), "Other");
}
