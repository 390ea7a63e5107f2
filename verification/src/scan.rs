//! Folder scanner: turns the immediate entries of one directory, as the
//! caller listed them, into a `FolderAnalysis` with all eleven categories
//! present. Directory entries and hidden entries (name starting with a
//! dot) are skipped; the rest are classified in listing order.
//!
//! The caller probes the path and reads the listing; this module owns
//! every decision: which entries count, what record they become, which
//! bucket they land in, and which error a failed probe maps to.

use crate::classify::{categorize_file, spec_category, Category, FileRecord, FileRecordView};
use crate::text::extension_of_name;
use vstd::prelude::*;

verus! {

/// One immediate entry of the scanned directory, as the caller read it:
/// its file name, its full path, its size (0 when the metadata could not
/// be read), and whether it is itself a directory.
pub struct ScanEntry {
    pub name: String,
    pub path: String,
    pub size: u64,
    pub is_dir: bool,
}

/// The scan keeps an entry when it is not a directory and not hidden.
pub open spec fn entry_kept(e: ScanEntry) -> bool {
    !e.is_dir && !(e.name@.len() > 0 && e.name@[0] == '.')
}

/// The record a kept entry becomes.
pub open spec fn record_view_of(e: ScanEntry) -> FileRecordView {
    FileRecordView {
        name: e.name@,
        path: e.path@,
        size: e.size,
        extension: extension_of_name(e.name@),
    }
}

/// The category a kept entry lands in.
pub open spec fn entry_category(e: ScanEntry) -> Category {
    spec_category(e.name@, extension_of_name(e.name@))
}

/// The views of a sequence of records.
pub open spec fn views_of(s: Seq<FileRecord>) -> Seq<FileRecordView> {
    s.map_values(|r: FileRecord| r@)
}

/// The records of the kept entries of `es` that classify to `lbl`, in
/// listing order.
pub open spec fn spec_bucket(es: Seq<ScanEntry>, lbl: Category) -> Seq<FileRecordView>
    decreases es.len(),
{
    if es.len() == 0 {
        Seq::empty()
    } else {
        let rest = spec_bucket(es.drop_last(), lbl);
        if entry_kept(es.last()) && entry_category(es.last()) == lbl {
            rest.push(record_view_of(es.last()))
        } else {
            rest
        }
    }
}

/// How many entries of `es` the scan keeps.
pub open spec fn spec_kept_count(es: Seq<ScanEntry>) -> nat
    decreases es.len(),
{
    if es.len() == 0 {
        0
    } else {
        spec_kept_count(es.drop_last()) + if entry_kept(es.last()) {
            1nat
        } else {
            0nat
        }
    }
}

/// The analysis of one folder: the kept-entry count and one record list
/// per category. All eleven categories are always present.
pub struct FolderAnalysis {
    pub total_files: usize,
    pub documents: Vec<FileRecord>,
    pub images: Vec<FileRecord>,
    pub videos: Vec<FileRecord>,
    pub audio: Vec<FileRecord>,
    pub archives: Vec<FileRecord>,
    pub code: Vec<FileRecord>,
    pub software: Vec<FileRecord>,
    pub work_documents: Vec<FileRecord>,
    pub personal_photos: Vec<FileRecord>,
    pub sensitive: Vec<FileRecord>,
    pub other: Vec<FileRecord>,
}

impl FolderAnalysis {
    /// The record views collected under `lbl`.
    pub open spec fn bucket(self, lbl: Category) -> Seq<FileRecordView> {
        views_of(
            match lbl {
                Category::Documents => self.documents@,
                Category::Images => self.images@,
                Category::Videos => self.videos@,
                Category::Audio => self.audio@,
                Category::Archives => self.archives@,
                Category::Code => self.code@,
                Category::Software => self.software@,
                Category::WorkDocuments => self.work_documents@,
                Category::PersonalPhotos => self.personal_photos@,
                Category::Sensitive => self.sensitive@,
                Category::Other => self.other@,
            },
        )
    }

    /// Borrows the record list collected under `lbl`.
    pub fn files_for(&self, lbl: Category) -> (v: &Vec<FileRecord>)
        ensures
            views_of(v@) == self.bucket(lbl),
    {
        match lbl {
            Category::Documents => &self.documents,
            Category::Images => &self.images,
            Category::Videos => &self.videos,
            Category::Audio => &self.audio,
            Category::Archives => &self.archives,
            Category::Code => &self.code,
            Category::Software => &self.software,
            Category::WorkDocuments => &self.work_documents,
            Category::PersonalPhotos => &self.personal_photos,
            Category::Sensitive => &self.sensitive,
            Category::Other => &self.other,
        }
    }

    fn empty() -> (a: FolderAnalysis)
        ensures
            a.total_files == 0,
            forall|lbl: Category| #[trigger] a.bucket(lbl) == Seq::<FileRecordView>::empty(),
    {
        let a = FolderAnalysis {
            total_files: 0,
            documents: Vec::new(),
            images: Vec::new(),
            videos: Vec::new(),
            audio: Vec::new(),
            archives: Vec::new(),
            code: Vec::new(),
            software: Vec::new(),
            work_documents: Vec::new(),
            personal_photos: Vec::new(),
            sensitive: Vec::new(),
            other: Vec::new(),
        };
        proof {
            assert forall|lbl: Category| #[trigger] a.bucket(lbl)
                == Seq::<FileRecordView>::empty() by {
                assert(a.bucket(lbl) =~= Seq::<FileRecordView>::empty());
            }
        }
        a
    }

    fn push_record(&mut self, c: Category, r: FileRecord)
        ensures
            final(self).total_files == old(self).total_files,
            forall|lbl: Category| #[trigger] final(self).bucket(lbl) == if lbl == c {
                old(self).bucket(lbl).push(r@)
            } else {
                old(self).bucket(lbl)
            },
    {
        proof {
            lemma_views_push(self.documents@, r);
            lemma_views_push(self.images@, r);
            lemma_views_push(self.videos@, r);
            lemma_views_push(self.audio@, r);
            lemma_views_push(self.archives@, r);
            lemma_views_push(self.code@, r);
            lemma_views_push(self.software@, r);
            lemma_views_push(self.work_documents@, r);
            lemma_views_push(self.personal_photos@, r);
            lemma_views_push(self.sensitive@, r);
            lemma_views_push(self.other@, r);
        }
        match c {
            Category::Documents => self.documents.push(r),
            Category::Images => self.images.push(r),
            Category::Videos => self.videos.push(r),
            Category::Audio => self.audio.push(r),
            Category::Archives => self.archives.push(r),
            Category::Code => self.code.push(r),
            Category::Software => self.software.push(r),
            Category::WorkDocuments => self.work_documents.push(r),
            Category::PersonalPhotos => self.personal_photos.push(r),
            Category::Sensitive => self.sensitive.push(r),
            Category::Other => self.other.push(r),
        }
    }
}

/// Pushing a record and then taking views appends the record's view.
proof fn lemma_views_push(s: Seq<FileRecord>, r: FileRecord)
    ensures
        views_of(s.push(r)) == views_of(s).push(r@),
{
    assert(views_of(s.push(r)) =~= views_of(s).push(r@));
}

/// Classifies the kept entries of one directory listing, in order, into
/// the eleven buckets, and counts them.
pub fn classify_entries(entries: Vec<ScanEntry>) -> (a: FolderAnalysis)
    ensures
        a.total_files == spec_kept_count(entries@),
        forall|lbl: Category| #[trigger] a.bucket(lbl) == spec_bucket(entries@, lbl),
{
    let mut a = FolderAnalysis::empty();
    let n = entries.len();
    let mut i: usize = 0;
    while i < n
        invariant
            n == entries@.len(),
            i <= n,
            a.total_files == spec_kept_count(entries@.take(i as int)),
            a.total_files <= i,
            forall|lbl: Category| #[trigger] a.bucket(lbl) == spec_bucket(
                entries@.take(i as int),
                lbl,
            ),
        decreases n - i,
    {
        proof {
            assert(entries@.take(i + 1).drop_last() =~= entries@.take(i as int));
            assert(entries@.take(i + 1).last() == entries@[i as int]);
        }
        let e = &entries[i];
        let ghost prefix = entries@.take(i as int);
        let hidden = e.name.as_str().unicode_len() > 0 && e.name.as_str().get_char(0) == '.';
        if !e.is_dir && !hidden {
            let r = FileRecord::new(e.name.clone(), e.path.clone(), e.size);
            proof {
                assert(r@ == record_view_of(entries@[i as int]));
            }
            let c = categorize_file(&r);
            proof {
                assert(entry_kept(entries@[i as int]));
                assert(c == entry_category(entries@[i as int]));
            }
            let ghost a0 = a;
            a.total_files = a.total_files + 1;
            let ghost a1 = a;
            a.push_record(c, r);
            proof {
                assert forall|lbl: Category| #[trigger] a.bucket(lbl) == spec_bucket(
                    entries@.take(i + 1),
                    lbl,
                ) by {
                    assert(a0.bucket(lbl) == spec_bucket(prefix, lbl));
                    assert(a1.bucket(lbl) == a0.bucket(lbl));
                    assert(spec_bucket(entries@.take(i + 1), lbl) == if entry_kept(
                        entries@[i as int],
                    ) && entry_category(entries@[i as int]) == lbl {
                        spec_bucket(prefix, lbl).push(record_view_of(entries@[i as int]))
                    } else {
                        spec_bucket(prefix, lbl)
                    });
                }
            }
        } else {
            proof {
                assert(!entry_kept(entries@[i as int]));
                assert forall|lbl: Category| #[trigger] a.bucket(lbl) == spec_bucket(
                    entries@.take(i + 1),
                    lbl,
                ) by {
                    assert(spec_bucket(entries@.take(i + 1), lbl) == spec_bucket(prefix, lbl));
                }
            }
        }
        i = i + 1;
    }
    proof {
        assert(entries@.take(n as int) =~= entries@);
    }
    a
}

/// The default folder to offer when no picker is wired up: the home
/// directory's `Downloads` folder, or `/Users` when no home is known.
/// The caller checks that the candidate exists.
pub fn default_folder_candidate(home: Option<&str>) -> (r: String)
    ensures
        match home {
            Some(h) => r@ == h@ + "/Downloads"@,
            None => r@ == "/Users"@,
        },
{
    match home {
        Some(h) => {
            let mut s = h.to_owned();
            s.append("/Downloads");
            s
        },
        None => "/Users".to_owned(),
    }
}

/// What the caller found when it probed the folder path: the path is
/// missing, is not a directory, could not be listed (with the underlying
/// failure's text), or yielded a listing of immediate entries.
pub enum DirectoryProbe {
    Missing,
    NotDirectory,
    Unreadable(String),
    Listing(Vec<ScanEntry>),
}

/// Why a scan failed.
#[derive(Debug, PartialEq, Eq)]
pub enum ScanError {
    NotFound,
    NotADirectory,
    ReadError(String),
}

/// Maps the caller's probe of a folder to the analysis or to the error
/// the probe dictates: a missing path to `NotFound`, a non-directory to
/// `NotADirectory`, an unreadable directory to `ReadError`, and a listing
/// to its classification.
pub fn analyze_listing(probe: DirectoryProbe) -> (r: Result<FolderAnalysis, ScanError>)
    ensures
        match probe {
            DirectoryProbe::Missing => r == Err::<FolderAnalysis, ScanError>(ScanError::NotFound),
            DirectoryProbe::NotDirectory => r == Err::<FolderAnalysis, ScanError>(
                ScanError::NotADirectory,
            ),
            DirectoryProbe::Unreadable(d) => r == Err::<FolderAnalysis, ScanError>(
                ScanError::ReadError(d),
            ),
            DirectoryProbe::Listing(es) => r is Ok && r->Ok_0.total_files == spec_kept_count(es@)
                && forall|lbl: Category| #[trigger] r->Ok_0.bucket(lbl) == spec_bucket(es@, lbl),
        },
{
    match probe {
        DirectoryProbe::Missing => Err(ScanError::NotFound),
        DirectoryProbe::NotDirectory => Err(ScanError::NotADirectory),
        DirectoryProbe::Unreadable(d) => Err(ScanError::ReadError(d)),
        DirectoryProbe::Listing(es) => Ok(classify_entries(es)),
    }
}

} // verus!
