//! Category rules: a pure, deterministic, case-insensitive mapping from a
//! file's name and extension to one of eleven fixed categories.
//!
//! Precedence, first match wins: a sensitive keyword anywhere in the name
//! overrides everything; then the extension picks the group, with the
//! document group refined by work keywords and the image group refined by
//! personal keywords or a date heuristic (the literal "20" together with
//! one of "2023", "2024", "2025" — deliberately that narrow); an unlisted
//! extension lands in `Other`. All keyword and extension matching is by
//! substring or whole-string comparison on the ASCII-lowercased text.

use crate::text::{
    contains_lower, contains_seq, extension_of_name, get_file_extension, lower, str_eq_lower,
};
use vstd::prelude::*;

verus! {

/// The closed set of category labels.
#[derive(Clone, Copy, Debug, PartialEq, Eq, Hash, Structural)]
pub enum Category {
    Documents,
    Images,
    Videos,
    Audio,
    Archives,
    Code,
    Software,
    WorkDocuments,
    PersonalPhotos,
    Sensitive,
    Other,
}

/// One scanned file. `extension` is the lowercased text after the last
/// dot of `name`, empty when `name` has no dot.
#[derive(Debug)]
pub struct FileRecord {
    pub name: String,
    pub path: String,
    pub size: u64,
    pub extension: String,
}

/// Mathematical image of a `FileRecord`.
pub ghost struct FileRecordView {
    pub name: Seq<char>,
    pub path: Seq<char>,
    pub size: u64,
    pub extension: Seq<char>,
}

impl View for FileRecord {
    type V = FileRecordView;

    open spec fn view(&self) -> FileRecordView {
        FileRecordView {
            name: self.name@,
            path: self.path@,
            size: self.size,
            extension: self.extension@,
        }
    }
}

impl FileRecord {
    /// The extension field agrees with the name it was derived from.
    pub open spec fn wf(self) -> bool {
        self.extension@ == extension_of_name(self.name@)
    }

    /// Builds a record, deriving the lowercase extension from the name.
    pub fn new(name: String, path: String, size: u64) -> (r: FileRecord)
        ensures
            r.name == name,
            r.path == path,
            r.size == size,
            r.wf(),
    {
        let extension = get_file_extension(name.as_str());
        FileRecord { name, path, size, extension }
    }
}

/// The lowercased name holds one of the sensitive (financial, credential,
/// medical, privacy) keywords.
pub open spec fn has_sensitive_keyword(lname: Seq<char>) -> bool {
    ||| contains_seq(lname, "tax"@)
    ||| contains_seq(lname, "irs"@)
    ||| contains_seq(lname, "w2"@)
    ||| contains_seq(lname, "1099"@)
    ||| contains_seq(lname, "ssn"@)
    ||| contains_seq(lname, "social"@)
    ||| contains_seq(lname, "security"@)
    ||| contains_seq(lname, "bank"@)
    ||| contains_seq(lname, "account"@)
    ||| contains_seq(lname, "statement"@)
    ||| contains_seq(lname, "routing"@)
    ||| contains_seq(lname, "financial"@)
    ||| contains_seq(lname, "password"@)
    ||| contains_seq(lname, "credential"@)
    ||| contains_seq(lname, "key"@)
    ||| contains_seq(lname, "secret"@)
    ||| contains_seq(lname, "login"@)
    ||| contains_seq(lname, "auth"@)
    ||| contains_seq(lname, "medical"@)
    ||| contains_seq(lname, "health"@)
    ||| contains_seq(lname, "prescription"@)
    ||| contains_seq(lname, "doctor"@)
    ||| contains_seq(lname, "patient"@)
    ||| contains_seq(lname, "personal"@)
    ||| contains_seq(lname, "private"@)
    ||| contains_seq(lname, "confidential"@)
    ||| contains_seq(lname, "classified"@)
}

/// The lowercased name holds one of the work keywords.
pub open spec fn has_work_keyword(lname: Seq<char>) -> bool {
    ||| contains_seq(lname, "meeting"@)
    ||| contains_seq(lname, "presentation"@)
    ||| contains_seq(lname, "report"@)
    ||| contains_seq(lname, "proposal"@)
    ||| contains_seq(lname, "contract"@)
    ||| contains_seq(lname, "client"@)
    ||| contains_seq(lname, "project"@)
    ||| contains_seq(lname, "deadline"@)
    ||| contains_seq(lname, "invoice"@)
    ||| contains_seq(lname, "budget"@)
    ||| contains_seq(lname, "company"@)
    ||| contains_seq(lname, "corporate"@)
    ||| contains_seq(lname, "business"@)
    ||| contains_seq(lname, "professional"@)
    ||| contains_seq(lname, "quarterly"@)
    ||| contains_seq(lname, "annual"@)
    ||| contains_seq(lname, "fiscal"@)
    ||| contains_seq(lname, "revenue"@)
    ||| contains_seq(lname, "salary"@)
}

/// The lowercased name holds one of the personal-photo keywords.
pub open spec fn has_personal_keyword(lname: Seq<char>) -> bool {
    ||| contains_seq(lname, "vacation"@)
    ||| contains_seq(lname, "holiday"@)
    ||| contains_seq(lname, "trip"@)
    ||| contains_seq(lname, "travel"@)
    ||| contains_seq(lname, "family"@)
    ||| contains_seq(lname, "birthday"@)
    ||| contains_seq(lname, "wedding"@)
    ||| contains_seq(lname, "anniversary"@)
    ||| contains_seq(lname, "graduation"@)
    ||| contains_seq(lname, "photo"@)
    ||| contains_seq(lname, "pic"@)
    ||| contains_seq(lname, "img"@)
    ||| contains_seq(lname, "selfie"@)
    ||| contains_seq(lname, "camera"@)
}

/// The date heuristic: "20" together with one of three literal years.
pub open spec fn has_date_pattern(lname: Seq<char>) -> bool {
    contains_seq(lname, "20"@) && (contains_seq(lname, "2023"@) || contains_seq(lname, "2024"@)
        || contains_seq(lname, "2025"@))
}

/// An image name counts as personal on a keyword or on the date pattern.
pub open spec fn is_personal_name(lname: Seq<char>) -> bool {
    has_personal_keyword(lname) || has_date_pattern(lname)
}

/// Document-group extensions (lowercase).
pub open spec fn is_document_ext(e: Seq<char>) -> bool {
    ||| e == "pdf"@
    ||| e == "doc"@
    ||| e == "docx"@
    ||| e == "txt"@
    ||| e == "rtf"@
    ||| e == "odt"@
}

/// Spreadsheet and presentation extensions (lowercase).
pub open spec fn is_spreadsheet_ext(e: Seq<char>) -> bool {
    ||| e == "xls"@
    ||| e == "xlsx"@
    ||| e == "csv"@
    ||| e == "ods"@
    ||| e == "ppt"@
    ||| e == "pptx"@
    ||| e == "odp"@
}

/// Image-group extensions (lowercase).
pub open spec fn is_image_ext(e: Seq<char>) -> bool {
    ||| e == "jpg"@
    ||| e == "jpeg"@
    ||| e == "png"@
    ||| e == "gif"@
    ||| e == "bmp"@
    ||| e == "tiff"@
    ||| e == "svg"@
    ||| e == "webp"@
    ||| e == "heic"@
}

/// Video extensions (lowercase).
pub open spec fn is_video_ext(e: Seq<char>) -> bool {
    ||| e == "mp4"@
    ||| e == "avi"@
    ||| e == "mov"@
    ||| e == "wmv"@
    ||| e == "flv"@
    ||| e == "mkv"@
    ||| e == "webm"@
    ||| e == "m4v"@
}

/// Audio extensions (lowercase).
pub open spec fn is_audio_ext(e: Seq<char>) -> bool {
    ||| e == "mp3"@
    ||| e == "wav"@
    ||| e == "flac"@
    ||| e == "aac"@
    ||| e == "ogg"@
    ||| e == "wma"@
    ||| e == "m4a"@
}

/// Archive extensions (lowercase).
pub open spec fn is_archive_ext(e: Seq<char>) -> bool {
    ||| e == "zip"@
    ||| e == "rar"@
    ||| e == "7z"@
    ||| e == "tar"@
    ||| e == "gz"@
    ||| e == "bz2"@
    ||| e == "xz"@
}

/// Code extensions (lowercase).
pub open spec fn is_code_ext(e: Seq<char>) -> bool {
    ||| e == "js"@
    ||| e == "ts"@
    ||| e == "jsx"@
    ||| e == "tsx"@
    ||| e == "py"@
    ||| e == "java"@
    ||| e == "cpp"@
    ||| e == "c"@
    ||| e == "h"@
    ||| e == "css"@
    ||| e == "html"@
    ||| e == "php"@
    ||| e == "rb"@
    ||| e == "go"@
    ||| e == "rs"@
    ||| e == "swift"@
    ||| e == "kt"@
    ||| e == "cs"@
    ||| e == "vb"@
    ||| e == "sql"@
    ||| e == "json"@
    ||| e == "xml"@
    ||| e == "yml"@
    ||| e == "yaml"@
}

/// Executable and installer extensions (lowercase).
pub open spec fn is_software_ext(e: Seq<char>) -> bool {
    ||| e == "exe"@
    ||| e == "msi"@
    ||| e == "dmg"@
    ||| e == "pkg"@
    ||| e == "deb"@
    ||| e == "rpm"@
    ||| e == "appx"@
    ||| e == "app"@
}

/// The category of a file with the given (raw) name and extension text:
/// sensitive keywords first, then the extension groups in a fixed order,
/// then `Other`.
pub open spec fn spec_category(name: Seq<char>, ext: Seq<char>) -> Category {
    let n = lower(name);
    let e = lower(ext);
    if has_sensitive_keyword(n) {
        Category::Sensitive
    } else if is_document_ext(e) {
        if has_work_keyword(n) {
            Category::WorkDocuments
        } else {
            Category::Documents
        }
    } else if is_spreadsheet_ext(e) {
        Category::Documents
    } else if is_image_ext(e) {
        if is_personal_name(n) {
            Category::PersonalPhotos
        } else {
            Category::Images
        }
    } else if is_video_ext(e) {
        Category::Videos
    } else if is_audio_ext(e) {
        Category::Audio
    } else if is_archive_ext(e) {
        Category::Archives
    } else if is_code_ext(e) {
        Category::Code
    } else if is_software_ext(e) {
        Category::Software
    } else {
        Category::Other
    }
}

/// The name holds a sensitive keyword, case-insensitively.
pub fn is_sensitive_file(file_name: &str) -> (b: bool)
    ensures
        b == has_sensitive_keyword(lower(file_name@)),
{
    contains_lower(file_name, "tax") || contains_lower(file_name, "irs") || contains_lower(
        file_name,
        "w2",
    ) || contains_lower(file_name, "1099") || contains_lower(file_name, "ssn") || contains_lower(
        file_name,
        "social",
    ) || contains_lower(file_name, "security") || contains_lower(file_name, "bank")
        || contains_lower(file_name, "account") || contains_lower(file_name, "statement")
        || contains_lower(file_name, "routing") || contains_lower(file_name, "financial")
        || contains_lower(file_name, "password") || contains_lower(file_name, "credential")
        || contains_lower(file_name, "key") || contains_lower(file_name, "secret")
        || contains_lower(file_name, "login") || contains_lower(file_name, "auth")
        || contains_lower(file_name, "medical") || contains_lower(file_name, "health")
        || contains_lower(file_name, "prescription") || contains_lower(file_name, "doctor")
        || contains_lower(file_name, "patient") || contains_lower(file_name, "personal")
        || contains_lower(file_name, "private") || contains_lower(file_name, "confidential")
        || contains_lower(file_name, "classified")
}

/// The name holds a work keyword, case-insensitively.
pub fn is_work_document(file_name: &str) -> (b: bool)
    ensures
        b == has_work_keyword(lower(file_name@)),
{
    contains_lower(file_name, "meeting") || contains_lower(file_name, "presentation")
        || contains_lower(file_name, "report") || contains_lower(file_name, "proposal")
        || contains_lower(file_name, "contract") || contains_lower(file_name, "client")
        || contains_lower(file_name, "project") || contains_lower(file_name, "deadline")
        || contains_lower(file_name, "invoice") || contains_lower(file_name, "budget")
        || contains_lower(file_name, "company") || contains_lower(file_name, "corporate")
        || contains_lower(file_name, "business") || contains_lower(file_name, "professional")
        || contains_lower(file_name, "quarterly") || contains_lower(file_name, "annual")
        || contains_lower(file_name, "fiscal") || contains_lower(file_name, "revenue")
        || contains_lower(file_name, "salary")
}

/// The name holds a personal keyword or the date pattern,
/// case-insensitively.
pub fn is_personal_photo(file_name: &str) -> (b: bool)
    ensures
        b == is_personal_name(lower(file_name@)),
{
    let has_keyword = contains_lower(file_name, "vacation") || contains_lower(file_name, "holiday")
        || contains_lower(file_name, "trip") || contains_lower(file_name, "travel")
        || contains_lower(file_name, "family") || contains_lower(file_name, "birthday")
        || contains_lower(file_name, "wedding") || contains_lower(file_name, "anniversary")
        || contains_lower(file_name, "graduation") || contains_lower(file_name, "photo")
        || contains_lower(file_name, "pic") || contains_lower(file_name, "img") || contains_lower(
        file_name,
        "selfie",
    ) || contains_lower(file_name, "camera");
    let has_date = contains_lower(file_name, "20") && (contains_lower(file_name, "2023")
        || contains_lower(file_name, "2024") || contains_lower(file_name, "2025"));
    has_keyword || has_date
}

fn ext_is_document(ext: &str) -> (b: bool)
    ensures
        b == is_document_ext(lower(ext@)),
{
    str_eq_lower(ext, "pdf") || str_eq_lower(ext, "doc") || str_eq_lower(ext, "docx")
        || str_eq_lower(ext, "txt") || str_eq_lower(ext, "rtf") || str_eq_lower(ext, "odt")
}

fn ext_is_spreadsheet(ext: &str) -> (b: bool)
    ensures
        b == is_spreadsheet_ext(lower(ext@)),
{
    str_eq_lower(ext, "xls") || str_eq_lower(ext, "xlsx") || str_eq_lower(ext, "csv")
        || str_eq_lower(ext, "ods") || str_eq_lower(ext, "ppt") || str_eq_lower(ext, "pptx")
        || str_eq_lower(ext, "odp")
}

fn ext_is_image(ext: &str) -> (b: bool)
    ensures
        b == is_image_ext(lower(ext@)),
{
    str_eq_lower(ext, "jpg") || str_eq_lower(ext, "jpeg") || str_eq_lower(ext, "png")
        || str_eq_lower(ext, "gif") || str_eq_lower(ext, "bmp") || str_eq_lower(ext, "tiff")
        || str_eq_lower(ext, "svg") || str_eq_lower(ext, "webp") || str_eq_lower(ext, "heic")
}

fn ext_is_video(ext: &str) -> (b: bool)
    ensures
        b == is_video_ext(lower(ext@)),
{
    str_eq_lower(ext, "mp4") || str_eq_lower(ext, "avi") || str_eq_lower(ext, "mov")
        || str_eq_lower(ext, "wmv") || str_eq_lower(ext, "flv") || str_eq_lower(ext, "mkv")
        || str_eq_lower(ext, "webm") || str_eq_lower(ext, "m4v")
}

fn ext_is_audio(ext: &str) -> (b: bool)
    ensures
        b == is_audio_ext(lower(ext@)),
{
    str_eq_lower(ext, "mp3") || str_eq_lower(ext, "wav") || str_eq_lower(ext, "flac")
        || str_eq_lower(ext, "aac") || str_eq_lower(ext, "ogg") || str_eq_lower(ext, "wma")
        || str_eq_lower(ext, "m4a")
}

fn ext_is_archive(ext: &str) -> (b: bool)
    ensures
        b == is_archive_ext(lower(ext@)),
{
    str_eq_lower(ext, "zip") || str_eq_lower(ext, "rar") || str_eq_lower(ext, "7z")
        || str_eq_lower(ext, "tar") || str_eq_lower(ext, "gz") || str_eq_lower(ext, "bz2")
        || str_eq_lower(ext, "xz")
}

fn ext_is_code(ext: &str) -> (b: bool)
    ensures
        b == is_code_ext(lower(ext@)),
{
    str_eq_lower(ext, "js") || str_eq_lower(ext, "ts") || str_eq_lower(ext, "jsx")
        || str_eq_lower(ext, "tsx") || str_eq_lower(ext, "py") || str_eq_lower(ext, "java")
        || str_eq_lower(ext, "cpp") || str_eq_lower(ext, "c") || str_eq_lower(ext, "h")
        || str_eq_lower(ext, "css") || str_eq_lower(ext, "html") || str_eq_lower(ext, "php")
        || str_eq_lower(ext, "rb") || str_eq_lower(ext, "go") || str_eq_lower(ext, "rs")
        || str_eq_lower(ext, "swift") || str_eq_lower(ext, "kt") || str_eq_lower(ext, "cs")
        || str_eq_lower(ext, "vb") || str_eq_lower(ext, "sql") || str_eq_lower(ext, "json")
        || str_eq_lower(ext, "xml") || str_eq_lower(ext, "yml") || str_eq_lower(ext, "yaml")
}

fn ext_is_software(ext: &str) -> (b: bool)
    ensures
        b == is_software_ext(lower(ext@)),
{
    str_eq_lower(ext, "exe") || str_eq_lower(ext, "msi") || str_eq_lower(ext, "dmg")
        || str_eq_lower(ext, "pkg") || str_eq_lower(ext, "deb") || str_eq_lower(ext, "rpm")
        || str_eq_lower(ext, "appx") || str_eq_lower(ext, "app")
}

/// Assigns the record its category. Pure and total: every record gets
/// exactly the label `spec_category` picks from its name and extension.
pub fn categorize_file(record: &FileRecord) -> (c: Category)
    ensures
        c == spec_category(record.name@, record.extension@),
{
    let name = record.name.as_str();
    let ext = record.extension.as_str();
    if is_sensitive_file(name) {
        Category::Sensitive
    } else if ext_is_document(ext) {
        if is_work_document(name) {
            Category::WorkDocuments
        } else {
            Category::Documents
        }
    } else if ext_is_spreadsheet(ext) {
        Category::Documents
    } else if ext_is_image(ext) {
        if is_personal_photo(name) {
            Category::PersonalPhotos
        } else {
            Category::Images
        }
    } else if ext_is_video(ext) {
        Category::Videos
    } else if ext_is_audio(ext) {
        Category::Audio
    } else if ext_is_archive(ext) {
        Category::Archives
    } else if ext_is_code(ext) {
        Category::Code
    } else if ext_is_software(ext) {
        Category::Software
    } else {
        Category::Other
    }
}

impl Category {
    /// The directory name each label maps to.
    pub open spec fn spec_dir_name(self) -> Seq<char> {
        match self {
            Category::Documents => "Documents"@,
            Category::Images => "Images"@,
            Category::Videos => "Videos"@,
            Category::Audio => "Audio"@,
            Category::Archives => "Archives"@,
            Category::Code => "Code"@,
            Category::Software => "Software"@,
            Category::WorkDocuments => "Work Documents"@,
            Category::PersonalPhotos => "Personal Photos"@,
            Category::Sensitive => "Sensitive"@,
            Category::Other => "Other"@,
        }
    }

    /// The directory name each label maps to.
    pub fn dir_name(&self) -> (s: &'static str)
        ensures
            s@ == self.spec_dir_name(),
    {
        match self {
            Category::Documents => "Documents",
            Category::Images => "Images",
            Category::Videos => "Videos",
            Category::Audio => "Audio",
            Category::Archives => "Archives",
            Category::Code => "Code",
            Category::Software => "Software",
            Category::WorkDocuments => "Work Documents",
            Category::PersonalPhotos => "Personal Photos",
            Category::Sensitive => "Sensitive",
            Category::Other => "Other",
        }
    }
}

/// A sensitive keyword in the name decides the category by itself: no
/// extension can override it.
pub proof fn lemma_sensitive_overrides_extension(name: Seq<char>, ext: Seq<char>)
    requires
        has_sensitive_keyword(lower(name)),
    ensures
        spec_category(name, ext) == Category::Sensitive,
{
}

/// Within the document extension group, and absent sensitive keywords, a
/// work keyword yields Work Documents and its absence yields Documents.
pub proof fn lemma_document_group_labels(name: Seq<char>, ext: Seq<char>)
    requires
        !has_sensitive_keyword(lower(name)),
        is_document_ext(lower(ext)),
    ensures
        has_work_keyword(lower(name)) ==> spec_category(name, ext) == Category::WorkDocuments,
        !has_work_keyword(lower(name)) ==> spec_category(name, ext) == Category::Documents,
{
}

/// Within the image extension group, and absent sensitive keywords, a
/// personal keyword or the date pattern yields Personal Photos and their
/// absence yields Images.
pub proof fn lemma_image_group_labels(name: Seq<char>, ext: Seq<char>)
    requires
        !has_sensitive_keyword(lower(name)),
        is_image_ext(lower(ext)),
    ensures
        is_personal_name(lower(name)) ==> spec_category(name, ext) == Category::PersonalPhotos,
        !is_personal_name(lower(name)) ==> spec_category(name, ext) == Category::Images,
{
    lemma_extension_groups_disjoint(lower(ext));
}

/// The image extension group shares no member with the document or
/// spreadsheet groups, which `spec_category` consults first.
proof fn lemma_extension_groups_disjoint(e: Seq<char>)
    ensures
        is_image_ext(e) ==> !is_document_ext(e) && !is_spreadsheet_ext(e),
{
    broadcast use vstd::string::group_string_axioms;

    reveal_strlit("pdf");
    reveal_strlit("doc");
    reveal_strlit("docx");
    reveal_strlit("txt");
    reveal_strlit("rtf");
    reveal_strlit("odt");
    reveal_strlit("xls");
    reveal_strlit("xlsx");
    reveal_strlit("csv");
    reveal_strlit("ods");
    reveal_strlit("ppt");
    reveal_strlit("pptx");
    reveal_strlit("odp");
    reveal_strlit("jpg");
    reveal_strlit("jpeg");
    reveal_strlit("png");
    reveal_strlit("gif");
    reveal_strlit("bmp");
    reveal_strlit("tiff");
    reveal_strlit("svg");
    reveal_strlit("webp");
    reveal_strlit("heic");
    assert("pdf"@.len() == 3 && "pdf"@[0] == 'p' && "pdf"@[1] == 'd');
    assert("doc"@.len() == 3 && "doc"@[0] == 'd' && "doc"@[1] == 'o');
    assert("docx"@.len() == 4 && "docx"@[0] == 'd' && "docx"@[1] == 'o');
    assert("txt"@.len() == 3 && "txt"@[0] == 't' && "txt"@[1] == 'x');
    assert("rtf"@.len() == 3 && "rtf"@[0] == 'r' && "rtf"@[1] == 't');
    assert("odt"@.len() == 3 && "odt"@[0] == 'o' && "odt"@[1] == 'd');
    assert("xls"@.len() == 3 && "xls"@[0] == 'x' && "xls"@[1] == 'l');
    assert("xlsx"@.len() == 4 && "xlsx"@[0] == 'x' && "xlsx"@[1] == 'l');
    assert("csv"@.len() == 3 && "csv"@[0] == 'c' && "csv"@[1] == 's');
    assert("ods"@.len() == 3 && "ods"@[0] == 'o' && "ods"@[1] == 'd');
    assert("ppt"@.len() == 3 && "ppt"@[0] == 'p' && "ppt"@[1] == 'p');
    assert("pptx"@.len() == 4 && "pptx"@[0] == 'p' && "pptx"@[1] == 'p');
    assert("odp"@.len() == 3 && "odp"@[0] == 'o' && "odp"@[1] == 'd');
    assert("jpg"@.len() == 3 && "jpg"@[0] == 'j' && "jpg"@[1] == 'p');
    assert("jpeg"@.len() == 4 && "jpeg"@[0] == 'j' && "jpeg"@[1] == 'p');
    assert("png"@.len() == 3 && "png"@[0] == 'p' && "png"@[1] == 'n');
    assert("gif"@.len() == 3 && "gif"@[0] == 'g' && "gif"@[1] == 'i');
    assert("bmp"@.len() == 3 && "bmp"@[0] == 'b' && "bmp"@[1] == 'm');
    assert("tiff"@.len() == 4 && "tiff"@[0] == 't' && "tiff"@[1] == 'i');
    assert("svg"@.len() == 3 && "svg"@[0] == 's' && "svg"@[1] == 'v');
    assert("webp"@.len() == 4 && "webp"@[0] == 'w' && "webp"@[1] == 'e');
    assert("heic"@.len() == 4 && "heic"@[0] == 'h' && "heic"@[1] == 'e');
}

/// An extension in none of the groups, with no sensitive keyword in the
/// name, lands in Other.
pub proof fn lemma_unlisted_extension_is_other(name: Seq<char>, ext: Seq<char>)
    requires
        !has_sensitive_keyword(lower(name)),
        !is_document_ext(lower(ext)),
        !is_spreadsheet_ext(lower(ext)),
        !is_image_ext(lower(ext)),
        !is_video_ext(lower(ext)),
        !is_audio_ext(lower(ext)),
        !is_archive_ext(lower(ext)),
        !is_code_ext(lower(ext)),
        !is_software_ext(lower(ext)),
    ensures
        spec_category(name, ext) == Category::Other,
{
}

} // verus!
